//! Upstream events as chunks of an OpenAI chat completion.

use vstd::prelude::*;
use crate::errors;
use crate::errors::{
    incomplete_upstream_detail, map_cc_event_error, map_finish_reason, normalize_usage, to_openai_finish_reason,
    MappedError, MappedErrorV,
};
use crate::http_util;
use crate::http_util::sse_data;
use crate::json;
use crate::json::{one_json, Json, JsonV};
use crate::text;
use crate::text::{cat4, decimal_i64, decimal_usize, no_texts, one_text, same};
use crate::translate::events;
use crate::translate::events::{delta_text, event_text, read_event, tool_arguments};
use crate::util;
use crate::util::{nullish_i64, now_unix};

verus! {

/// The translation of one upstream stream.
pub struct ChatSseTranslator {
    pub model: String,
    pub completion_id: String,
    pub created: i64,
    pub saw_finish: bool,
    pub chunk_index: usize,
    pub finish_reason: Option<String>,
    pub usage: Option<Json>,
    pub tool_call_index: usize,
    pub last_cc_event: String,
    pub upstream_error: Option<MappedError>,
    pub input_tokens: i64,
    pub output_tokens: i64,
    pub cached_input_tokens: i64,
}

/// The model of a translation.
pub struct ChatV {
    pub model: Seq<char>,
    pub completion_id: Seq<char>,
    pub created: i64,
    pub saw_finish: bool,
    pub chunk_index: usize,
    pub finish_reason: Option<Seq<char>>,
    pub usage: Option<JsonV>,
    pub tool_call_index: usize,
    pub last_cc_event: Seq<char>,
    pub upstream_error: Option<MappedErrorV>,
    pub input_tokens: i64,
    pub output_tokens: i64,
    pub cached_input_tokens: i64,
}

/// The token counts of a chat completion.
pub open spec fn usage_json(input: i64, output: i64, cached: i64) -> JsonV {
    JsonV::obj().with("prompt_tokens"@, json::int_json(input as int)).with(
        "completion_tokens"@,
        json::int_json(output as int),
    ).with("total_tokens"@, json::int_json(input.wrapping_add(output) as int)).with(
        "prompt_tokens_details"@,
        JsonV::obj().with("cached_tokens"@, json::int_json(cached as int)),
    )
}

pub(crate) fn make_usage(input: i64, output: i64, cached: i64) -> (r: Json)
    ensures
        r@ == usage_json(input, output, cached),
{
    Json::obj().with_int("prompt_tokens", input).with_int("completion_tokens", output).with_int(
        "total_tokens",
        input.wrapping_add(output),
    ).with("prompt_tokens_details", Json::obj().with_int("cached_tokens", cached))
}

/// The chunks that an event gives, and the translation after it.
pub struct ChatStepV {
    pub next: ChatV,
    pub chunks: Seq<JsonV>,
}

impl ChatV {
    /// The translation before any event.
    pub open spec fn start(model: Seq<char>, completion_id: Seq<char>, created: i64) -> ChatV {
        ChatV {
            model,
            completion_id,
            created,
            saw_finish: false,
            chunk_index: 0,
            finish_reason: None,
            usage: None,
            tool_call_index: 0,
            last_cc_event: Seq::empty(),
            upstream_error: None,
            input_tokens: 0,
            output_tokens: 0,
            cached_input_tokens: 0,
        }
    }

    /// A chunk.
    pub open spec fn chunk(self, delta: JsonV, finish_reason: Option<Seq<char>>, usage: Option<JsonV>) -> JsonV {
        JsonV::obj().with("id"@, JsonV::Str(self.completion_id)).with(
            "object"@,
            JsonV::Str("chat.completion.chunk"@),
        ).with("created"@, json::int_json(self.created as int)).with("model"@, JsonV::Str(self.model)).with(
            "choices"@,
            JsonV::Array(
                seq![
                    JsonV::obj().with("index"@, json::int_json(0)).with("delta"@, delta).with(
                        "finish_reason"@,
                        match finish_reason {
                            Some(f) => JsonV::Str(f),
                            None => JsonV::Null,
                        },
                    ),
                ],
            ),
        ).with_some("usage"@, usage)
    }

    /// The beginning of a delta: the first one of all names the role.
    pub open spec fn fresh_delta(self) -> JsonV {
        if self.chunk_index == 0 {
            JsonV::obj().with("role"@, JsonV::Str("assistant"@))
        } else {
            JsonV::obj()
        }
    }

    pub open spec fn counted(self) -> ChatV {
        ChatV { chunk_index: self.chunk_index.wrapping_add(1), ..self }
    }

    pub open spec fn quiet(self) -> ChatStepV {
        ChatStepV { next: self, chunks: Seq::empty() }
    }

    /// A text or a piece of reasoning; an empty one gives nothing.
    pub open spec fn on_text(self, member: Seq<char>, t: Seq<char>) -> ChatStepV {
        if t.len() == 0 {
            self.quiet()
        } else {
            ChatStepV {
                next: self.counted(),
                chunks: seq![self.chunk(self.fresh_delta().with(member, JsonV::Str(t)), None, None)],
            }
        }
    }

    /// The identifier of a tool call, made of the time where the event names none.
    pub open spec fn call_id(self, e: JsonV, now: i64) -> Seq<char> {
        match e.get_nonempty("toolCallId"@) {
            Some(id) => id,
            None => "call_"@ + text::decimal_int(now.wrapping_mul(1000) as int) + "_"@ + text::decimal(
                self.tool_call_index as nat,
            ),
        }
    }

    pub open spec fn on_call(self, e: JsonV, now: i64) -> ChatStepV {
        let call = JsonV::obj().with("index"@, json::int_json(self.tool_call_index as int)).with(
            "id"@,
            JsonV::Str(self.call_id(e, now)),
        ).with("type"@, JsonV::Str("function"@)).with(
            "function"@,
            JsonV::obj().with("name"@, JsonV::Str(e.str_or("toolName"@, ""@))).with(
                "arguments"@,
                JsonV::Str(events::arguments_of(e)),
            ),
        );
        let begin = if self.chunk_index == 0 {
            self.fresh_delta().with("content"@, JsonV::Null)
        } else {
            self.fresh_delta()
        };
        ChatStepV {
            next: ChatV { tool_call_index: self.tool_call_index.wrapping_add(1), ..self.counted() },
            chunks: seq![self.chunk(begin.with("tool_calls"@, JsonV::Array(seq![call])), None, None)],
        }
    }

    pub open spec fn with_tokens(self, u: JsonV) -> ChatV {
        ChatV {
            input_tokens: util::integer_or(u.get("inputTokens"@), 0),
            output_tokens: util::integer_or(u.get("outputTokens"@), 0),
            cached_input_tokens: util::integer_or(u.get("cachedInputTokens"@), 0),
            ..self
        }
    }

    /// The end of a step: it counts as an end, and its reason and usage are kept.
    pub open spec fn on_finish_step(self, e: JsonV) -> ChatStepV {
        let s = ChatV {
            saw_finish: true,
            finish_reason: match e.get_str("finishReason"@) {
                Some(fr) => Some(errors::finish_reason_of(fr)),
                None => self.finish_reason,
            },
            ..self
        };
        (match e.get_object("usage"@) {
            Some(u) => ChatV { usage: Some(u), ..s.with_tokens(u) },
            None => s,
        }).quiet()
    }

    /// The reason for the end: that of an earlier step, else that of the event.
    pub open spec fn final_reason(self, e: JsonV) -> Seq<char> {
        match self.finish_reason {
            Some(fr) => fr,
            None => errors::finish_reason_of(e.str_or("finishReason"@, "stop"@)),
        }
    }

    /// The usage that the last chunk tells: that of the event, else that of an earlier step.
    pub open spec fn final_usage(self, e: JsonV) -> JsonV {
        errors::usage_normal(
            match e.get_object("totalUsage"@) {
                Some(u) => u,
                None => match self.usage {
                    Some(u) => u,
                    None => JsonV::obj(),
                },
            },
        )
    }

    /// The end of the stream; one for a failed connection is remembered as such.
    pub open spec fn on_finish(self, e: JsonV) -> ChatStepV {
        let next = ChatV {
            saw_finish: true,
            finish_reason: if self.final_reason(e) == "upstream_error"@ {
                Some("upstream_error"@)
            } else {
                self.finish_reason
            },
            ..self
        }.with_tokens(self.final_usage(e));
        ChatStepV {
            next,
            chunks: seq![
                self.chunk(
                    JsonV::obj(),
                    Some(errors::openai_reason(self.final_reason(e))),
                    Some(usage_json(next.input_tokens, next.output_tokens, next.cached_input_tokens)),
                ),
            ],
        }
    }

    /// What an event does, at a time. An error is kept for the end of the stream; events without
    /// content, and unknown ones, give nothing.
    pub open spec fn step(self, e: JsonV, now: i64) -> ChatStepV {
        let ty = events::type_of(e);
        let s = ChatV { last_cc_event: ty, ..self };
        if ty == "text-delta"@ {
            s.on_text("content"@, events::delta_text_of(e))
        } else if ty == "reasoning-delta"@ {
            s.on_text("reasoning_content"@, events::event_text_of(e))
        } else if ty == "tool-call"@ {
            s.on_call(e, now)
        } else if ty == "finish-step"@ {
            s.on_finish_step(e)
        } else if ty == "finish"@ {
            s.on_finish(e)
        } else if ty == "error"@ {
            ChatV { upstream_error: Some(errors::event_error(e)), ..s }.quiet()
        } else {
            s.quiet()
        }
    }

    /// What a line does, at a time.
    pub open spec fn line(self, line: Seq<char>, now: i64) -> ChatStepV {
        match events::event_in(line, true) {
            Some(e) => self.step(e, now),
            None => self.quiet(),
        }
    }

    /// What keeps the stream so far from being complete.
    pub open spec fn incomplete(self) -> Option<Seq<char>> {
        errors::incomplete_detail_of(self.saw_finish, self.finish_reason)
    }
}

/// Chunks as frames of an event stream.
pub open spec fn frames(chunks: Seq<JsonV>) -> Seq<Seq<char>> {
    chunks.map_values(|c: JsonV| http_util::data_frame(c))
}

fn one_frame(chunk: Json) -> (r: Vec<String>)
    ensures
        text::texts(r@) == frames(seq![chunk@]),
{
    let r = one_text(sse_data(&chunk));
    assert(text::texts(r@) =~= frames(seq![chunk@]));
    r
}

fn no_frame() -> (r: Vec<String>)
    ensures
        text::texts(r@) == frames(Seq::empty()),
{
    let r = no_texts();
    assert(text::texts(r@) =~= frames(Seq::empty()));
    r
}

impl ChatSseTranslator {
    pub open spec fn view(&self) -> ChatV {
        ChatV {
            model: self.model@,
            completion_id: self.completion_id@,
            created: self.created,
            saw_finish: self.saw_finish,
            chunk_index: self.chunk_index,
            finish_reason: text::text_opt(self.finish_reason),
            usage: json::owned_json(self.usage),
            tool_call_index: self.tool_call_index,
            last_cc_event: self.last_cc_event@,
            upstream_error: errors::opt_mapped(self.upstream_error),
            input_tokens: self.input_tokens,
            output_tokens: self.output_tokens,
            cached_input_tokens: self.cached_input_tokens,
        }
    }

    pub fn new(model: &str, completion_id: &str, created: i64) -> (r: Self)
        ensures
            r@ == ChatV::start(model@, completion_id@, created),
    {
        let r = ChatSseTranslator {
            model: model.to_owned(),
            completion_id: completion_id.to_owned(),
            created,
            saw_finish: false,
            chunk_index: 0,
            finish_reason: None,
            usage: None,
            tool_call_index: 0,
            last_cc_event: String::new(),
            upstream_error: None,
            input_tokens: 0,
            output_tokens: 0,
            cached_input_tokens: 0,
        };
        assert(r.last_cc_event@ =~= Seq::<char>::empty());
        r
    }

    /// The frame that ends a complete stream.
    pub fn done_event() -> (r: &'static str)
        ensures
            r@ == "data: [DONE]\n\n"@,
    {
        "data: [DONE]\n\n"
    }

    pub fn incomplete_detail(&self) -> (r: Option<&'static str>)
        ensures
            text::str_opt(r) == self@.incomplete(),
    {
        let fr: Option<&str> = match &self.finish_reason {
            Some(s) => Some(s.as_str()),
            None => None,
        };
        incomplete_upstream_detail(self.saw_finish, fr)
    }

    fn make_chunk(&self, delta: Json, finish_reason: Option<&str>, usage: Option<Json>) -> (r: Json)
        ensures
            r@ == self@.chunk(delta@, text::str_opt(finish_reason), json::owned_json(usage)),
    {
        let choice = Json::obj().with_int("index", 0).with("delta", delta).with(
            "finish_reason",
            Json::str_or_null(finish_reason),
        );
        Json::obj().with_str("id", self.completion_id.as_str()).with_str("object", "chat.completion.chunk").with_int(
            "created",
            self.created,
        ).with_str("model", self.model.as_str()).with("choices", Json::array(one_json(choice))).with_some("usage", usage)
    }

    fn begin_delta(&self) -> (r: Json)
        ensures
            r@ == self@.fresh_delta(),
    {
        if self.chunk_index == 0 {
            Json::obj().with_str("role", "assistant")
        } else {
            Json::obj()
        }
    }

    fn text(&mut self, member: &str, t: &str) -> (r: Vec<String>)
        ensures
            final(self)@ == old(self)@.on_text(member@, t@).next,
            text::texts(r@) == frames(old(self)@.on_text(member@, t@).chunks),
    {
        if t.is_empty() {
            return no_frame();
        }
        let chunk = self.make_chunk(self.begin_delta().with_str(member, t), None, None);
        self.chunk_index = self.chunk_index.wrapping_add(1);
        one_frame(chunk)
    }

    fn call(&mut self, e: &Json, now: i64) -> (r: Vec<String>)
        ensures
            final(self)@ == old(self)@.on_call(e@, now).next,
            text::texts(r@) == frames(old(self)@.on_call(e@, now).chunks),
    {
        let id = match e.get_nonempty("toolCallId") {
            Some(id) => id.to_owned(),
            None => cat4(
                "call_",
                decimal_i64(now.wrapping_mul(1000)).as_str(),
                "_",
                decimal_usize(self.tool_call_index).as_str(),
            ),
        };
        let call = Json::obj().with("index", Json::of_uint(self.tool_call_index as u64)).with_str(
            "id",
            id.as_str(),
        ).with_str("type", "function").with(
            "function",
            Json::obj().with_str("name", e.str_or("toolName", "")).with_str("arguments", tool_arguments(e).as_str()),
        );
        let begin = if self.chunk_index == 0 {
            self.begin_delta().with("content", Json::Null)
        } else {
            self.begin_delta()
        };
        let chunk = self.make_chunk(begin.with("tool_calls", Json::array(one_json(call))), None, None);
        self.chunk_index = self.chunk_index.wrapping_add(1);
        self.tool_call_index = self.tool_call_index.wrapping_add(1);
        one_frame(chunk)
    }

    fn take_tokens(&mut self, u: &Json)
        ensures
            final(self)@ == old(self)@.with_tokens(u@),
    {
        self.input_tokens = nullish_i64(u.get("inputTokens"), 0);
        self.output_tokens = nullish_i64(u.get("outputTokens"), 0);
        self.cached_input_tokens = nullish_i64(u.get("cachedInputTokens"), 0);
    }

    fn finish_step(&mut self, e: &Json)
        ensures
            final(self)@ == old(self)@.on_finish_step(e@).next,
    {
        self.saw_finish = true;
        if let Some(fr) = e.get_str("finishReason") {
            self.finish_reason = Some(map_finish_reason(fr));
        }
        if let Some(u) = e.get_object("usage") {
            self.take_tokens(u);
            self.usage = Some(u.clone());
        }
    }

    fn finish(&mut self, e: &Json) -> (r: Vec<String>)
        ensures
            final(self)@ == old(self)@.on_finish(e@).next,
            text::texts(r@) == frames(old(self)@.on_finish(e@).chunks),
    {
        let base = match &self.finish_reason {
            Some(fr) => fr.clone(),
            None => map_finish_reason(e.str_or("finishReason", "stop")),
        };
        let mut u = match e.get_object("totalUsage") {
            Some(u) => u.clone(),
            None => match &self.usage {
                Some(u) => u.clone(),
                None => Json::obj(),
            },
        };
        normalize_usage(&mut u);
        self.saw_finish = true;
        if same(base.as_str(), "upstream_error") {
            self.finish_reason = Some(base.clone());
        }
        self.take_tokens(&u);
        let usage = make_usage(self.input_tokens, self.output_tokens, self.cached_input_tokens);
        let chunk = self.make_chunk(Json::obj(), Some(to_openai_finish_reason(base.as_str())), Some(usage));
        one_frame(chunk)
    }

    /// Takes an event at a time, in seconds since 1970, and gives the frames for it.
    pub fn on_event(&mut self, e: &Json, now: i64) -> (r: Vec<String>)
        ensures
            final(self)@ == old(self)@.step(e@, now).next,
            text::texts(r@) == frames(old(self)@.step(e@, now).chunks),
    {
        let ty = e.str_or("type", "");
        self.last_cc_event = ty.to_owned();
        if same(ty, "text-delta") {
            let t = delta_text(e);
            self.text("content", t.as_str())
        } else if same(ty, "reasoning-delta") {
            let t = event_text(e);
            self.text("reasoning_content", t.as_str())
        } else if same(ty, "tool-call") {
            self.call(e, now)
        } else if same(ty, "finish-step") {
            self.finish_step(e);
            no_frame()
        } else if same(ty, "finish") {
            self.finish(e)
        } else if same(ty, "error") {
            self.upstream_error = Some(map_cc_event_error(e));
            no_frame()
        } else {
            no_frame()
        }
    }

    /// Takes a line at a time, in seconds since 1970, and gives the frames for it.
    pub fn parse_line_at(&mut self, line: &str, now: i64) -> (r: Vec<String>)
        ensures
            final(self)@ == old(self)@.line(line@, now).next,
            text::texts(r@) == frames(old(self)@.line(line@, now).chunks),
    {
        match read_event(line, true) {
            Some(e) => self.on_event(&e, now),
            None => no_frame(),
        }
    }

    /// Takes a line and gives the frames for it.
    pub fn parse_line(&mut self, line: &str) -> (r: Vec<String>)
        ensures
            exists|now: i64|
                0 <= now && final(self)@ == (#[trigger] old(self)@.line(line@, now)).next && text::texts(r@) == frames(
                    old(self)@.line(line@, now).chunks,
                ),
    {
        self.parse_line_at(line, now_unix())
    }
}

// ── laws ───────────────────────────────────────────────────────

/// Whether an event tells the client something: a text, a piece of reasoning or a call.
pub open spec fn tells_content(e: JsonV) -> bool {
    let ty = events::type_of(e);
    if ty == "text-delta"@ {
        events::delta_text_of(e).len() > 0
    } else if ty == "reasoning-delta"@ {
        events::event_text_of(e).len() > 0
    } else {
        ty == "tool-call"@
    }
}

/// Whether an event is a tool call.
pub open spec fn tells_call(e: JsonV) -> bool {
    let ty = events::type_of(e);
    ty != "text-delta"@ && ty != "reasoning-delta"@ && ty == "tool-call"@
}

/// How many lines tell something.
pub open spec fn content_lines(lines: Seq<Seq<char>>) -> nat
    decreases lines.len(),
{
    if lines.len() == 0 {
        0
    } else {
        content_lines(lines.drop_last()) + (match events::event_in(lines.last(), true) {
            Some(e) => if tells_content(e) {
                1nat
            } else {
                0
            },
            None => 0,
        })
    }
}

/// How many lines are tool calls.
pub open spec fn call_lines(lines: Seq<Seq<char>>) -> nat
    decreases lines.len(),
{
    if lines.len() == 0 {
        0
    } else {
        call_lines(lines.drop_last()) + (match events::event_in(lines.last(), true) {
            Some(e) => if tells_call(e) {
                1nat
            } else {
                0
            },
            None => 0,
        })
    }
}

impl ChatV {
    /// What lines do, at a time.
    pub open spec fn lines(self, lines: Seq<Seq<char>>, now: i64) -> ChatStepV
        decreases lines.len(),
    {
        if lines.len() == 0 {
            self.quiet()
        } else {
            let before = self.lines(lines.drop_last(), now);
            let last = before.next.line(lines.last(), now);
            ChatStepV { next: last.next, chunks: before.chunks + last.chunks }
        }
    }
}

/// The calls of a stream are numbered from zero without a gap, and what tells something is
/// counted, so that the first of it is known.
pub proof fn counters_count(
    model: Seq<char>,
    completion_id: Seq<char>,
    created: i64,
    lines: Seq<Seq<char>>,
    now: i64,
)
    requires
        lines.len() <= usize::MAX,
    ensures
        ({
            let t = ChatV::start(model, completion_id, created).lines(lines, now).next;
            t.chunk_index == content_lines(lines) && t.tool_call_index == call_lines(lines)
        }),
        content_lines(lines) <= lines.len(),
        call_lines(lines) <= lines.len(),
    decreases lines.len(),
{
    if lines.len() > 0 {
        counters_count(model, completion_id, created, lines.drop_last(), now);
    }
}

/// The delta in a chunk.
pub open spec fn delta_in(chunk: JsonV) -> Option<JsonV> {
    match chunk.get("choices"@) {
        Some(JsonV::Array(cs)) => cs[0].get("delta"@),
        _ => None,
    }
}

proof fn lemma_delta_in(t: ChatV, delta: JsonV, finish_reason: Option<Seq<char>>, usage: Option<JsonV>)
    ensures
        delta_in(t.chunk(delta, finish_reason, usage)) == Some(delta),
{
    broadcast use json::group_members;

    reveal_strlit("id");
    reveal_strlit("object");
    reveal_strlit("created");
    reveal_strlit("model");
    reveal_strlit("choices");
    reveal_strlit("usage");
    reveal_strlit("index");
    reveal_strlit("delta");
    reveal_strlit("finish_reason");
    assert("choices"@.len() != "usage"@.len());
    assert("delta"@.len() != "finish_reason"@.len());
    let fr = match finish_reason {
        Some(f) => JsonV::Str(f),
        None => JsonV::Null,
    };
    let choice = JsonV::obj().with("index"@, json::int_json(0)).with("delta"@, delta).with("finish_reason"@, fr);
    assert(JsonV::obj().with("index"@, json::int_json(0)).with("delta"@, delta).get("delta"@) == Some(delta));
    assert(choice.get("delta"@) == Some(delta));
    let plain = JsonV::obj().with("id"@, JsonV::Str(t.completion_id)).with(
        "object"@,
        JsonV::Str("chat.completion.chunk"@),
    ).with("created"@, json::int_json(t.created as int)).with("model"@, JsonV::Str(t.model)).with(
        "choices"@,
        JsonV::Array(seq![choice]),
    );
    assert(plain.get("choices"@) == Some(JsonV::Array(seq![choice])));
    assert(t.chunk(delta, finish_reason, usage) == plain.with_some("usage"@, usage));
}

/// The first chunk that tells something names the role of the assistant, and no later one does.
pub proof fn role_is_named_once(t: ChatV, e: JsonV, now: i64)
    requires
        tells_content(e),
    ensures
        t.step(e, now).chunks.len() == 1,
        delta_in(t.step(e, now).chunks[0]) matches Some(d) && d.get("role"@) == (if t.chunk_index == 0 {
            Some(JsonV::Str("assistant"@))
        } else {
            None
        }),
{
    broadcast use json::group_members;

    reveal_strlit("role");
    reveal_strlit("content");
    reveal_strlit("reasoning_content");
    reveal_strlit("tool_calls");
    assert("role"@.len() != "content"@.len());
    assert("role"@.len() != "reasoning_content"@.len());
    assert("role"@.len() != "tool_calls"@.len());
    let ty = events::type_of(e);
    let s = ChatV { last_cc_event: ty, ..t };
    assert(s.fresh_delta().get("role"@) == (if t.chunk_index == 0 {
        Some(JsonV::Str("assistant"@))
    } else {
        None
    }));
    if ty == "text-delta"@ {
        let d = s.fresh_delta().with("content"@, JsonV::Str(events::delta_text_of(e)));
        assert(d.get("role"@) == s.fresh_delta().get("role"@));
        lemma_delta_in(s, d, None, None);
    } else if ty == "reasoning-delta"@ {
        let d = s.fresh_delta().with("reasoning_content"@, JsonV::Str(events::event_text_of(e)));
        assert(d.get("role"@) == s.fresh_delta().get("role"@));
        lemma_delta_in(s, d, None, None);
    } else {
        let begin = if s.chunk_index == 0 {
            s.fresh_delta().with("content"@, JsonV::Null)
        } else {
            s.fresh_delta()
        };
        assert(begin.get("role"@) == s.fresh_delta().get("role"@));
        let call = JsonV::obj().with("index"@, json::int_json(s.tool_call_index as int)).with(
            "id"@,
            JsonV::Str(s.call_id(e, now)),
        ).with("type"@, JsonV::Str("function"@)).with(
            "function"@,
            JsonV::obj().with("name"@, JsonV::Str(e.str_or("toolName"@, ""@))).with(
                "arguments"@,
                JsonV::Str(events::arguments_of(e)),
            ),
        );
        let d = begin.with("tool_calls"@, JsonV::Array(seq![call]));
        assert(d.get("role"@) == begin.get("role"@));
        lemma_delta_in(s, d, None, None);
    }
}

// ── whole streams ──────────────────────────────────────────────

impl ChatV {
    /// What lines do, each at a time of its own.
    pub open spec fn fed(self, lines: Seq<Seq<char>>, times: Seq<i64>) -> ChatStepV
        decreases lines.len(),
    {
        if lines.len() == 0 {
            self.quiet()
        } else {
            let before = self.fed(lines.drop_last(), times);
            let last = before.next.line(lines.last(), times[lines.len() - 1]);
            ChatStepV { next: last.next, chunks: before.chunks + last.chunks }
        }
    }
}

/// The role that a chunk names.
pub open spec fn role_in(chunk: JsonV) -> Option<JsonV> {
    match delta_in(chunk) {
        Some(d) => d.get("role"@),
        None => None,
    }
}

/// Whether a chunk tells something: a text, a piece of reasoning or a call.
pub open spec fn tells(chunk: JsonV) -> bool {
    match delta_in(chunk) {
        Some(d) => d.get("content"@) is Some || d.get("reasoning_content"@) is Some || d.get("tool_calls"@) is Some,
        None => false,
    }
}

/// The numbers of the calls in a chunk.
pub open spec fn numbers_in(chunk: JsonV) -> Seq<Option<JsonV>> {
    match delta_in(chunk) {
        Some(d) => d.items("tool_calls"@).map_values(|c: JsonV| c.get("index"@)),
        None => Seq::empty(),
    }
}

/// The numbers of the calls in chunks.
pub open spec fn call_numbers(chunks: Seq<JsonV>) -> Seq<Option<JsonV>>
    decreases chunks.len(),
{
    if chunks.len() == 0 {
        Seq::empty()
    } else {
        call_numbers(chunks.drop_last()) + numbers_in(chunks.last())
    }
}

/// Whether a chunk is the first among chunks that tells something.
pub open spec fn first_to_tell(chunks: Seq<JsonV>, i: int) -> bool {
    tells(chunks[i]) && forall|j: int| 0 <= j < i ==> !tells(#[trigger] chunks[j])
}

/// Whether a chunk belongs to a completion.
pub open spec fn belongs(chunk: JsonV, model: Seq<char>, completion_id: Seq<char>, created: i64) -> bool {
    &&& chunk.get("id"@) == Some(JsonV::Str(completion_id))
    &&& chunk.get("model"@) == Some(JsonV::Str(model))
    &&& chunk.get("created"@) == Some(json::int_json(created as int))
}

proof fn lemma_belongs(t: ChatV, delta: JsonV, finish_reason: Option<Seq<char>>, usage: Option<JsonV>)
    ensures
        belongs(t.chunk(delta, finish_reason, usage), t.model, t.completion_id, t.created),
{
    broadcast use json::group_members;

    reveal_strlit("id");
    reveal_strlit("object");
    reveal_strlit("created");
    reveal_strlit("model");
    reveal_strlit("choices");
    reveal_strlit("usage");
    assert("id"@.len() == 2 && "object"@.len() == 6 && "created"@.len() == 7 && "model"@.len() == 5);
    assert("choices"@[1] == 'h' && "created"@[1] == 'r' && "usage"@[0] == 'u' && "model"@[0] == 'm');
    let fr = match finish_reason {
        Some(f) => JsonV::Str(f),
        None => JsonV::Null,
    };
    let choice = JsonV::obj().with("index"@, json::int_json(0)).with("delta"@, delta).with("finish_reason"@, fr);
    let a = JsonV::obj().with("id"@, JsonV::Str(t.completion_id)).with(
        "object"@,
        JsonV::Str("chat.completion.chunk"@),
    );
    let b = a.with("created"@, json::int_json(t.created as int)).with("model"@, JsonV::Str(t.model));
    assert(a.get("id"@) == Some(JsonV::Str(t.completion_id)));
    assert(b.get("id"@) == a.get("id"@));
    assert(b.get("model"@) == Some(JsonV::Str(t.model)));
    assert(b.get("created"@) == Some(json::int_json(t.created as int)));
    let c = b.with("choices"@, JsonV::Array(seq![choice]));
    assert(c.get("id"@) == b.get("id"@) && c.get("model"@) == b.get("model"@) && c.get("created"@) == b.get(
        "created"@,
    ));
    assert(t.chunk(delta, finish_reason, usage) == c.with_some("usage"@, usage));
}

/// What a chunk with a text shows.
proof fn lemma_text_chunk(t: ChatV, member: Seq<char>, x: Seq<char>)
    requires
        x.len() > 0,
        member == "content"@ || member == "reasoning_content"@,
    ensures
        ({
            let c = t.on_text(member, x).chunks[0];
            &&& t.on_text(member, x).chunks.len() == 1
            &&& belongs(c, t.model, t.completion_id, t.created)
            &&& tells(c)
            &&& numbers_in(c) == Seq::<Option<JsonV>>::empty()
            &&& role_in(c) == (if t.chunk_index == 0 {
                Some(JsonV::Str("assistant"@))
            } else {
                None
            })
        }),
{
    broadcast use json::group_members;

    reveal_strlit("role");
    reveal_strlit("content");
    reveal_strlit("reasoning_content");
    reveal_strlit("tool_calls");
    assert("role"@.len() == 4 && "content"@.len() == 7 && "reasoning_content"@.len() == 17 && "tool_calls"@.len()
        == 10);
    let f = t.fresh_delta();
    let d = f.with(member, JsonV::Str(x));
    assert(f is Object);
    assert(f.get("tool_calls"@) is None);
    assert(d.get(member) == Some(JsonV::Str(x)));
    assert(d.get("role"@) == f.get("role"@));
    assert(d.get("tool_calls"@) == f.get("tool_calls"@));
    lemma_delta_in(t, d, None, None);
    lemma_belongs(t, d, None, None);
    assert(numbers_in(t.chunk(d, None, None)) =~= Seq::<Option<JsonV>>::empty());
}

/// What a chunk with a call shows.
proof fn lemma_call_chunk(t: ChatV, e: JsonV, now: i64)
    ensures
        ({
            let c = t.on_call(e, now).chunks[0];
            &&& t.on_call(e, now).chunks.len() == 1
            &&& belongs(c, t.model, t.completion_id, t.created)
            &&& tells(c)
            &&& numbers_in(c) == seq![Some(json::int_json(t.tool_call_index as int))]
            &&& role_in(c) == (if t.chunk_index == 0 {
                Some(JsonV::Str("assistant"@))
            } else {
                None
            })
        }),
{
    broadcast use json::group_members;

    reveal_strlit("role");
    reveal_strlit("content");
    reveal_strlit("tool_calls");
    reveal_strlit("index");
    reveal_strlit("id");
    reveal_strlit("type");
    reveal_strlit("function");
    assert("role"@.len() == 4 && "content"@.len() == 7 && "tool_calls"@.len() == 10);
    assert("index"@.len() == 5 && "id"@.len() == 2 && "type"@.len() == 4 && "function"@.len() == 8);
    let f = t.fresh_delta();
    let begin = if t.chunk_index == 0 {
        f.with("content"@, JsonV::Null)
    } else {
        f
    };
    let a = JsonV::obj().with("index"@, json::int_json(t.tool_call_index as int));
    let b = a.with("id"@, JsonV::Str(t.call_id(e, now)));
    let c = b.with("type"@, JsonV::Str("function"@));
    let call = c.with(
        "function"@,
        JsonV::obj().with("name"@, JsonV::Str(e.str_or("toolName"@, ""@))).with(
            "arguments"@,
            JsonV::Str(events::arguments_of(e)),
        ),
    );
    assert(a.get("index"@) == Some(json::int_json(t.tool_call_index as int)));
    assert(b.get("index"@) == a.get("index"@));
    assert(c.get("index"@) == a.get("index"@));
    assert(call.get("index"@) == a.get("index"@));
    assert(f is Object && begin is Object);
    assert(begin.get("role"@) == f.get("role"@));
    let d = begin.with("tool_calls"@, JsonV::Array(seq![call]));
    assert(d.get("tool_calls"@) == Some(JsonV::Array(seq![call])));
    assert(d.get("role"@) == begin.get("role"@));
    lemma_delta_in(t, d, None, None);
    lemma_belongs(t, d, None, None);
    assert(d.items("tool_calls"@) == seq![call]);
    assert(numbers_in(t.chunk(d, None, None)) =~= seq![Some(json::int_json(t.tool_call_index as int))]);
}

/// What the last chunk shows.
proof fn lemma_finish_chunk(t: ChatV, fr: Option<Seq<char>>, usage: Option<JsonV>)
    ensures
        ({
            let c = t.chunk(JsonV::obj(), fr, usage);
            &&& belongs(c, t.model, t.completion_id, t.created)
            &&& !tells(c)
            &&& numbers_in(c) == Seq::<Option<JsonV>>::empty()
            &&& role_in(c) is None
        }),
{
    broadcast use json::group_members;

    lemma_delta_in(t, JsonV::obj(), fr, usage);
    lemma_belongs(t, JsonV::obj(), fr, usage);
    assert(numbers_in(t.chunk(JsonV::obj(), fr, usage)) =~= Seq::<Option<JsonV>>::empty());
}

/// What the chunks so far show, of a translation that took so many lines.
spec fn coherent(
    t: ChatV,
    chunks: Seq<JsonV>,
    taken: nat,
    model: Seq<char>,
    completion_id: Seq<char>,
    created: i64,
) -> bool {
    &&& t.model == model && t.completion_id == completion_id && t.created == created
    &&& t.chunk_index <= taken && t.tool_call_index <= taken
    &&& t.chunk_index == 0 <==> forall|j: int| 0 <= j < chunks.len() ==> !tells(#[trigger] chunks[j])
    &&& forall|i: int| 0 <= i < chunks.len() ==> belongs(#[trigger] chunks[i], model, completion_id, created)
    &&& forall|i: int|
        0 <= i < chunks.len() ==> role_in(#[trigger] chunks[i]) == (if first_to_tell(chunks, i) {
            Some(JsonV::Str("assistant"@))
        } else {
            None
        })
    &&& call_numbers(chunks) == Seq::new(t.tool_call_index as nat, |k: int| Some(json::int_json(k)))
}

proof fn lemma_coherent_push(
    t: ChatV,
    chunks: Seq<JsonV>,
    taken: nat,
    model: Seq<char>,
    completion_id: Seq<char>,
    created: i64,
    next: ChatV,
    c: JsonV,
)
    requires
        coherent(t, chunks, taken, model, completion_id, created),
        taken < usize::MAX,
        next.model == model && next.completion_id == completion_id && next.created == created,
        belongs(c, model, completion_id, created),
        tells(c) ==> next.chunk_index == t.chunk_index + 1,
        !tells(c) ==> next.chunk_index == t.chunk_index,
        role_in(c) == (if tells(c) && t.chunk_index == 0 {
            Some(JsonV::Str("assistant"@))
        } else {
            None
        }),
        numbers_in(c) == Seq::<Option<JsonV>>::empty() && next.tool_call_index == t.tool_call_index || numbers_in(c)
            == seq![Some(json::int_json(t.tool_call_index as int))] && next.tool_call_index == t.tool_call_index + 1,
    ensures
        coherent(next, chunks.push(c), taken + 1, model, completion_id, created),
{
    let all = chunks.push(c);
    let n = chunks.len() as int;
    assert(all.drop_last() =~= chunks);
    assert(all.last() == c);
    assert(call_numbers(all) =~= Seq::new(next.tool_call_index as nat, |k: int| Some(json::int_json(k))));
    assert forall|i: int| 0 <= i < all.len() implies belongs(#[trigger] all[i], model, completion_id, created) by {
        if i < n {
            assert(all[i] == chunks[i]);
        }
    }
    assert forall|i: int| 0 <= i < n implies first_to_tell(all, i) == first_to_tell(chunks, i) by {
        assert(all[i] == chunks[i]);
        assert forall|j: int| 0 <= j < i implies #[trigger] all[j] == chunks[j] by {}
        if first_to_tell(chunks, i) {
            assert forall|j: int| 0 <= j < i implies !tells(#[trigger] all[j]) by {
                assert(!tells(chunks[j]));
            }
        }
        if first_to_tell(all, i) {
            assert forall|j: int| 0 <= j < i implies !tells(#[trigger] chunks[j]) by {
                assert(!tells(all[j]));
            }
        }
    }
    assert(first_to_tell(all, n) == (tells(c) && t.chunk_index == 0)) by {
        assert(all[n] == c);
        if t.chunk_index == 0 {
            assert forall|j: int| 0 <= j < n implies !tells(#[trigger] all[j]) by {
                assert(!tells(chunks[j]));
            }
        } else {
            let j = choose|j: int| 0 <= j < chunks.len() && tells(#[trigger] chunks[j]);
            assert(tells(all[j]));
        }
    }
    assert forall|i: int| 0 <= i < all.len() implies role_in(#[trigger] all[i]) == (if first_to_tell(all, i) {
        Some(JsonV::Str("assistant"@))
    } else {
        None
    }) by {
        if i < n {
            assert(all[i] == chunks[i]);
            assert(first_to_tell(all, i) == first_to_tell(chunks, i));
        }
    }
    assert(next.chunk_index == 0 <==> forall|j: int| 0 <= j < all.len() ==> !tells(#[trigger] all[j])) by {
        if next.chunk_index == 0 {
            assert forall|j: int| 0 <= j < all.len() implies !tells(#[trigger] all[j]) by {
                if j < n {
                    assert(!tells(chunks[j]));
                }
            }
        } else if tells(c) {
            assert(tells(all[n]));
        } else {
            let j = choose|j: int| 0 <= j < chunks.len() && tells(#[trigger] chunks[j]);
            assert(tells(all[j]));
        }
    }
}

proof fn lemma_coherent_line(
    t: ChatV,
    chunks: Seq<JsonV>,
    taken: nat,
    model: Seq<char>,
    completion_id: Seq<char>,
    created: i64,
    line: Seq<char>,
    now: i64,
)
    requires
        coherent(t, chunks, taken, model, completion_id, created),
        taken < usize::MAX,
    ensures
        coherent(t.line(line, now).next, chunks + t.line(line, now).chunks, taken + 1, model, completion_id, created),
{
    let r = t.line(line, now);
    let none = chunks + Seq::<JsonV>::empty();
    assert(none =~= chunks);
    if let Some(e) = events::event_in(line, true) {
        let ty = events::type_of(e);
        let s = ChatV { last_cc_event: ty, ..t };
        if r.chunks.len() == 0 {
            assert(chunks + r.chunks =~= chunks);
            assert(r.next.chunk_index == t.chunk_index && r.next.tool_call_index == t.tool_call_index);
        } else {
            assert(chunks + r.chunks =~= chunks.push(r.chunks[0]));
            if ty == "text-delta"@ {
                lemma_text_chunk(s, "content"@, events::delta_text_of(e));
            } else if ty == "reasoning-delta"@ {
                lemma_text_chunk(s, "reasoning_content"@, events::event_text_of(e));
            } else if ty == "tool-call"@ {
                lemma_call_chunk(s, e, now);
            } else {
                let n = s.on_finish(e).next;
                lemma_finish_chunk(
                    s,
                    Some(errors::openai_reason(s.final_reason(e))),
                    Some(usage_json(n.input_tokens, n.output_tokens, n.cached_input_tokens)),
                );
            }
            lemma_coherent_push(t, chunks, taken, model, completion_id, created, r.next, r.chunks[0]);
        }
    } else {
        assert(chunks + r.chunks =~= chunks);
    }
}

proof fn lemma_coherent(
    model: Seq<char>,
    completion_id: Seq<char>,
    created: i64,
    lines: Seq<Seq<char>>,
    times: Seq<i64>,
)
    requires
        lines.len() <= usize::MAX,
    ensures
        ({
            let s = ChatV::start(model, completion_id, created).fed(lines, times);
            coherent(s.next, s.chunks, lines.len(), model, completion_id, created)
        }),
    decreases lines.len(),
{
    let t = ChatV::start(model, completion_id, created);
    if lines.len() > 0 {
        let n = lines.len() - 1;
        lemma_coherent(model, completion_id, created, lines.drop_last(), times);
        let before = t.fed(lines.drop_last(), times);
        lemma_coherent_line(
            before.next,
            before.chunks,
            n as nat,
            model,
            completion_id,
            created,
            lines.last(),
            times[n],
        );
    } else {
        assert(call_numbers(Seq::<JsonV>::empty()) =~= Seq::new(0, |k: int| Some(json::int_json(k))));
    }
}

/// Whatever lines come: every chunk is one of the same completion, exactly the first chunk that
/// tells something names the role of the assistant, and the calls are numbered from zero without
/// a gap.
pub proof fn streams_hold_together(
    model: Seq<char>,
    completion_id: Seq<char>,
    created: i64,
    lines: Seq<Seq<char>>,
    times: Seq<i64>,
)
    requires
        lines.len() <= usize::MAX,
        times.len() == lines.len(),
    ensures
        ({
            let cs = ChatV::start(model, completion_id, created).fed(lines, times).chunks;
            &&& forall|i: int| 0 <= i < cs.len() ==> belongs(#[trigger] cs[i], model, completion_id, created)
            &&& forall|i: int|
                0 <= i < cs.len() ==> role_in(#[trigger] cs[i]) == (if first_to_tell(cs, i) {
                    Some(JsonV::Str("assistant"@))
                } else {
                    None
                })
            &&& call_numbers(cs) == Seq::new(call_numbers(cs).len(), |k: int| Some(json::int_json(k)))
        }),
{
    lemma_coherent(model, completion_id, created, lines, times);
    let s = ChatV::start(model, completion_id, created).fed(lines, times);
    assert(call_numbers(s.chunks).len() == s.next.tool_call_index);
}

} // verus!
