//! Upstream events as the event stream of an Anthropic message.

use vstd::prelude::*;
use crate::cc;
use crate::cc::{copy_or_null, make_text_part};
use crate::errors;
use crate::errors::{
    anthropic_input_tokens, fake_thinking_signature, incomplete_upstream_detail, incomplete_upstream_error, map_anthropic_stop_reason,
    map_cc_event_error, map_finish_reason, normalize_usage, MappedError, MappedErrorV,
};
use crate::json;
use crate::json::{json_string, no_json, push_json, Items, Json, JsonV};
use crate::text;
use crate::text::{cat, cat5, chars_of, no_texts, one_text, push_text, same};
use crate::translate::events;
use crate::translate::events::{event_text, get_usage, read_event, tool_arguments};
use crate::util;
use crate::util::{nullish_i64, random_uuid, short_id, try_parse_json};

verus! {

// ── frames ─────────────────────────────────────────────────────

/// One event of the stream that a client reads.
pub enum FrameV {
    BlockStart { index: int, block: JsonV },
    BlockDelta { index: int, delta: JsonV },
    BlockStop { index: int },
    Error { error: JsonV, retry_after: Option<u64> },
    MessageDelta { stop_reason: Seq<char>, usage: JsonV },
    MessageStop,
}

pub open spec fn block_start_json(index: int, block: JsonV) -> JsonV {
    JsonV::obj().with("type"@, JsonV::Str("content_block_start"@)).with("index"@, json::int_json(index)).with(
        "content_block"@,
        block,
    )
}

pub open spec fn block_delta_json(index: int, delta: JsonV) -> JsonV {
    JsonV::obj().with("type"@, JsonV::Str("content_block_delta"@)).with("index"@, json::int_json(index)).with(
        "delta"@,
        delta,
    )
}

pub open spec fn block_stop_json(index: int) -> JsonV {
    JsonV::obj().with("type"@, JsonV::Str("content_block_stop"@)).with("index"@, json::int_json(index))
}

/// The body of an error in the Anthropic form.
pub open spec fn error_json(error: JsonV, retry_after: Option<u64>) -> JsonV {
    JsonV::obj().with("type"@, JsonV::Str("error"@)).with("error"@, error).with_some(
        "retry_after"@,
        errors::count_json(retry_after),
    )
}

pub open spec fn message_delta_json(stop_reason: Seq<char>, usage: JsonV) -> JsonV {
    JsonV::obj().with("type"@, JsonV::Str("message_delta"@)).with(
        "delta"@,
        JsonV::obj().with("stop_reason"@, JsonV::Str(stop_reason)),
    ).with("usage"@, usage)
}

/// An event as text: its name and its data.
pub open spec fn sse_text(ty: Seq<char>, payload: JsonV) -> Seq<char> {
    "event: "@ + ty + "\ndata: "@ + json::json_text(payload) + "\n\n"@
}

impl FrameV {
    pub open spec fn text(self) -> Seq<char> {
        match self {
            FrameV::BlockStart { index, block } => sse_text("content_block_start"@, block_start_json(index, block)),
            FrameV::BlockDelta { index, delta } => sse_text("content_block_delta"@, block_delta_json(index, delta)),
            FrameV::BlockStop { index } => sse_text("content_block_stop"@, block_stop_json(index)),
            FrameV::Error { error, retry_after } => sse_text("error"@, error_json(error, retry_after)),
            FrameV::MessageDelta { stop_reason, usage } => sse_text(
                "message_delta"@,
                message_delta_json(stop_reason, usage),
            ),
            FrameV::MessageStop => sse_text(
                "message_stop"@,
                JsonV::obj().with("type"@, JsonV::Str("message_stop"@)),
            ),
        }
    }
}

/// Frames as one text.
pub open spec fn frames_text(fs: Seq<FrameV>) -> Seq<char>
    decreases fs.len(),
{
    if fs.len() == 0 {
        Seq::empty()
    } else {
        frames_text(fs.drop_last()) + fs.last().text()
    }
}

/// Pieces of a stream as texts.
pub open spec fn piece_texts(pieces: Seq<Seq<FrameV>>) -> Seq<Seq<char>> {
    pieces.map_values(|p: Seq<FrameV>| frames_text(p))
}

pub(crate) fn make_sse(ty: &str, payload: &Json) -> (r: String)
    ensures
        r@ == sse_text(ty@, payload@),
{
    cat5("event: ", ty, "\ndata: ", json_string(payload).as_str(), "\n\n")
}

proof fn lemma_frames_one(f: FrameV)
    ensures
        frames_text(seq![f]) == f.text(),
{
    assert(seq![f].drop_last() =~= Seq::<FrameV>::empty());
    assert(frames_text(Seq::empty()) =~= Seq::<char>::empty());
    assert(Seq::<char>::empty() + f.text() =~= f.text());
}

proof fn lemma_frames_push(fs: Seq<FrameV>, f: FrameV)
    ensures
        frames_text(fs.push(f)) == frames_text(fs) + f.text(),
{
    assert(fs.push(f).drop_last() =~= fs);
}

// ── the translation ────────────────────────────────────────────

/// The block that is open.
#[derive(Debug, Clone, Copy)]
pub struct OpenBlock {
    pub thinking: bool,
    pub index: usize,
}

/// The translation of one upstream stream.
pub struct AnthropicSseTranslator {
    pub message_id: String,
    pub model: String,
    pub next_block_index: usize,
    pub open: Option<OpenBlock>,
    pub input_tokens: i64,
    pub output_tokens: i64,
    pub cached_input_tokens: i64,
    pub cache_write_tokens: i64,
    /// Negative where the upstream does not tell it.
    pub no_cache_tokens: i64,
    pub stop_reason: Option<String>,
    pub finish_norm: Option<String>,
    pub saw_finish: bool,
    pub has_error: bool,
    pub current_thinking_text: String,
    pub last_cc_event: String,
    pub upstream_error: Option<MappedError>,
}

/// The model of a translation.
pub struct AnthropicV {
    pub message_id: Seq<char>,
    pub model: Seq<char>,
    pub next_block_index: usize,
    pub open: Option<OpenBlock>,
    pub input_tokens: i64,
    pub output_tokens: i64,
    pub cached_input_tokens: i64,
    pub cache_write_tokens: i64,
    pub no_cache_tokens: i64,
    pub stop_reason: Option<Seq<char>>,
    pub finish_norm: Option<Seq<char>>,
    pub saw_finish: bool,
    pub has_error: bool,
    pub current_thinking_text: Seq<char>,
    pub last_cc_event: Seq<char>,
    pub upstream_error: Option<MappedErrorV>,
}

/// The pieces of the stream that an event gives, and the translation after it.
pub struct AnthropicStepV {
    pub next: AnthropicV,
    pub pieces: Seq<Seq<FrameV>>,
}

/// An open block that is empty.
pub open spec fn blank_block(thinking: bool) -> JsonV {
    if thinking {
        JsonV::obj().with("type"@, JsonV::Str("thinking"@)).with("thinking"@, JsonV::Str(""@))
    } else {
        JsonV::obj().with("type"@, JsonV::Str("text"@)).with("text"@, JsonV::Str(""@))
    }
}

/// A piece of text for the open block.
pub open spec fn text_delta(thinking: bool, t: Seq<char>) -> JsonV {
    if thinking {
        JsonV::obj().with("type"@, JsonV::Str("thinking_delta"@)).with("thinking"@, JsonV::Str(t))
    } else {
        JsonV::obj().with("type"@, JsonV::Str("text_delta"@)).with("text"@, JsonV::Str(t))
    }
}

pub open spec fn signature_delta(thinking: Seq<char>) -> JsonV {
    JsonV::obj().with("type"@, JsonV::Str("signature_delta"@)).with(
        "signature"@,
        JsonV::Str(errors::signature_of(thinking)),
    )
}

impl AnthropicV {
    /// The translation before any event.
    pub open spec fn start(model: Seq<char>, message_id: Seq<char>) -> AnthropicV {
        AnthropicV {
            message_id,
            model,
            next_block_index: 0,
            open: None,
            input_tokens: 0,
            output_tokens: 0,
            cached_input_tokens: 0,
            cache_write_tokens: 0,
            no_cache_tokens: (-1) as i64,
            stop_reason: None,
            finish_norm: None,
            saw_finish: false,
            has_error: false,
            current_thinking_text: Seq::empty(),
            last_cc_event: Seq::empty(),
            upstream_error: None,
        }
    }

    /// The event that begins every message.
    pub open spec fn message_start_text(self) -> Seq<char> {
        sse_text(
            "message_start"@,
            JsonV::obj().with("type"@, JsonV::Str("message_start"@)).with(
                "message"@,
                JsonV::obj().with("id"@, JsonV::Str(self.message_id)).with("type"@, JsonV::Str("message"@)).with(
                    "role"@,
                    JsonV::Str("assistant"@),
                ).with("content"@, JsonV::Array(Seq::empty())).with("model"@, JsonV::Str(self.model)).with(
                    "usage"@,
                    JsonV::obj().with("input_tokens"@, json::int_json(0)).with("output_tokens"@, json::int_json(0)),
                ),
            ),
        )
    }

    pub open spec fn quiet(self) -> AnthropicStepV {
        AnthropicStepV { next: self, pieces: Seq::empty() }
    }

    /// The frames that close the open block; a thinking block is signed first.
    pub open spec fn close_frames(self) -> Seq<FrameV> {
        match self.open {
            None => Seq::empty(),
            Some(b) => if b.thinking {
                seq![
                    FrameV::BlockDelta { index: b.index as int, delta: signature_delta(self.current_thinking_text) },
                    FrameV::BlockStop { index: b.index as int },
                ]
            } else {
                seq![FrameV::BlockStop { index: b.index as int }]
            },
        }
    }

    pub open spec fn closed(self) -> AnthropicV {
        AnthropicV {
            open: None,
            current_thinking_text: match self.open {
                Some(b) => if b.thinking {
                    Seq::empty()
                } else {
                    self.current_thinking_text
                },
                None => self.current_thinking_text,
            },
            ..self
        }
    }

    pub open spec fn is_open(self, thinking: bool) -> bool {
        match self.open {
            Some(b) => b.thinking == thinking,
            None => false,
        }
    }

    /// The frames after which a block of the kind is open.
    pub open spec fn open_frames(self, thinking: bool) -> Seq<FrameV> {
        if self.is_open(thinking) {
            Seq::empty()
        } else {
            self.close_frames().push(
                FrameV::BlockStart { index: self.next_block_index as int, block: blank_block(thinking) },
            )
        }
    }

    pub open spec fn opened(self, thinking: bool) -> AnthropicV {
        if self.is_open(thinking) {
            self
        } else {
            AnthropicV {
                open: Some(OpenBlock { thinking, index: self.next_block_index }),
                next_block_index: self.next_block_index.wrapping_add(1),
                ..self.closed()
            }
        }
    }

    /// A piece of thinking; an empty one gives nothing.
    pub open spec fn on_thinking(self, t: Seq<char>) -> AnthropicStepV {
        if t.len() == 0 {
            self.quiet()
        } else {
            let s = self.opened(true);
            AnthropicStepV {
                next: AnthropicV { current_thinking_text: s.current_thinking_text + t, ..s },
                pieces: seq![
                    self.open_frames(true),
                    seq![FrameV::BlockDelta { index: s.open->0.index as int, delta: text_delta(true, t) }],
                ],
            }
        }
    }

    /// A piece of text.
    pub open spec fn on_text(self, t: Seq<char>) -> AnthropicStepV {
        let s = self.opened(false);
        AnthropicStepV {
            next: AnthropicV { output_tokens: s.output_tokens.wrapping_add(1), ..s },
            pieces: seq![
                self.open_frames(false),
                seq![FrameV::BlockDelta { index: s.open->0.index as int, delta: text_delta(false, t) }],
            ],
        }
    }

    /// A tool call, in a block of its own; `uuid` makes its identifier where the event names none.
    pub open spec fn on_call(self, e: JsonV, uuid: Seq<char>) -> AnthropicStepV {
        let id = match e.get_nonempty("toolCallId"@) {
            Some(id) => id,
            None => "toolu_"@ + util::short_id_text(uuid, 12),
        };
        let index = self.next_block_index as int;
        let block = JsonV::obj().with("type"@, JsonV::Str("tool_use"@)).with("id"@, JsonV::Str(id)).with(
            "name"@,
            JsonV::Str(e.str_or("toolName"@, ""@)),
        ).with("input"@, JsonV::obj());
        let delta = JsonV::obj().with("type"@, JsonV::Str("input_json_delta"@)).with(
            "partial_json"@,
            JsonV::Str(events::arguments_of(e)),
        );
        let before = if self.open is Some {
            seq![self.close_frames()]
        } else {
            Seq::empty()
        };
        AnthropicStepV {
            next: AnthropicV {
                next_block_index: self.next_block_index.wrapping_add(1),
                output_tokens: self.output_tokens.wrapping_add(20),
                ..self.closed()
            },
            pieces: before.push(seq![FrameV::BlockStart { index, block }]).push(
                seq![FrameV::BlockDelta { index, delta }],
            ).push(seq![FrameV::BlockStop { index }]),
        }
    }

    /// The token counts with those of a usage report; what it does not tell stays.
    pub open spec fn with_usage(self, u: JsonV) -> AnthropicV {
        AnthropicV {
            input_tokens: util::integer_or(u.get("inputTokens"@), self.input_tokens),
            output_tokens: util::integer_or(u.get("outputTokens"@), self.output_tokens),
            cached_input_tokens: util::integer_or(u.get("cachedInputTokens"@), self.cached_input_tokens),
            cache_write_tokens: util::integer_or(
                u.get2("inputTokenDetails"@, "cacheWriteTokens"@),
                self.cache_write_tokens,
            ),
            no_cache_tokens: util::integer_or(
                u.get2("inputTokenDetails"@, "noCacheTokens"@),
                self.no_cache_tokens,
            ),
            ..self
        }
    }

    /// The end of a step or of the stream.
    pub open spec fn on_finish(self, e: JsonV) -> AnthropicV {
        let s = AnthropicV { saw_finish: true, ..self };
        let s = match e.get_str("finishReason"@) {
            Some(fr) => AnthropicV {
                stop_reason: Some(errors::stop_reason_of(errors::finish_reason_of(fr))),
                finish_norm: Some(errors::finish_reason_of(fr)),
                ..s
            },
            None => s,
        };
        match events::usage_in(e) {
            Some(u) => s.with_usage(errors::usage_normal(u)),
            None => s,
        }
    }

    /// What an event does. Events without content, and unknown ones, give nothing.
    pub open spec fn step(self, e: JsonV, uuid: Seq<char>) -> AnthropicStepV {
        let ty = events::type_of(e);
        let s = AnthropicV { last_cc_event: ty, ..self };
        if ty == "reasoning-delta"@ {
            s.on_thinking(events::event_text_of(e))
        } else if ty == "text-delta"@ {
            s.on_text(events::event_text_of(e))
        } else if ty == "tool-call"@ {
            s.on_call(e, uuid)
        } else if ty == "finish-step"@ || ty == "finish"@ {
            s.on_finish(e).quiet()
        } else if ty == "error"@ {
            let mapped = errors::event_error(e);
            AnthropicStepV {
                next: AnthropicV { has_error: true, upstream_error: Some(mapped), ..s },
                pieces: seq![seq![FrameV::Error { error: error_member(mapped), retry_after: None }]],
            }
        } else {
            s.quiet()
        }
    }

    /// What a line does.
    pub open spec fn line(self, line: Seq<char>, uuid: Seq<char>) -> AnthropicStepV {
        match events::event_in(line, false) {
            Some(e) => self.step(e, uuid),
            None => self.quiet(),
        }
    }

    pub open spec fn incomplete(self) -> Option<Seq<char>> {
        errors::incomplete_detail_of(self.saw_finish, self.finish_norm)
    }

    /// The input tokens without those of the cache.
    pub open spec fn fresh_input_tokens(self) -> i64 {
        if self.no_cache_tokens >= 0 {
            self.no_cache_tokens
        } else {
            let n = self.input_tokens.wrapping_sub(self.cached_input_tokens).wrapping_sub(self.cache_write_tokens);
            if n > 0 {
                n
            } else {
                0
            }
        }
    }

    pub open spec fn usage_json(self) -> JsonV {
        JsonV::obj().with("output_tokens"@, json::int_json(self.output_tokens as int)).with(
            "cache_read_input_tokens"@,
            json::int_json(self.cached_input_tokens as int),
        ).with("cache_creation_input_tokens"@, json::int_json(self.cache_write_tokens as int)).with(
            "input_tokens"@,
            json::int_json(self.fresh_input_tokens() as int),
        )
    }

    /// The frames behind the last block: an error where the stream was cut off or had no output,
    /// else the end of the message.
    pub open spec fn last_frames(self) -> Seq<FrameV> {
        match self.incomplete() {
            Some(detail) => seq![
                FrameV::Error { error: error_member(errors::incomplete_error(detail)), retry_after: None },
            ],
            None => if self.output_tokens == 0 {
                seq![FrameV::Error { error: zero_output_json(), retry_after: Some(10) }]
            } else {
                seq![
                    FrameV::MessageDelta {
                        stop_reason: match self.stop_reason {
                            Some(r) => r,
                            None => "end_turn"@,
                        },
                        usage: self.usage_json(),
                    },
                    FrameV::MessageStop,
                ]
            },
        }
    }

    /// The end of the stream; nothing more is said after an error.
    pub open spec fn finished(self) -> AnthropicStepV {
        if self.has_error {
            self.quiet()
        } else {
            let before = if self.open is Some {
                seq![self.close_frames()]
            } else {
                Seq::empty()
            };
            AnthropicStepV {
                next: self.closed(),
                pieces: before + self.last_frames().map_values(|f: FrameV| seq![f]),
            }
        }
    }
}

/// The error in the body of a mapped error.
pub open spec fn error_member(m: MappedErrorV) -> JsonV {
    match m.body.get("error"@) {
        Some(e) => e,
        None => JsonV::obj(),
    }
}

/// An error in the Anthropic form: its type, then its message.
pub open spec fn typed_error(ty: Seq<char>, message: Seq<char>) -> JsonV {
    JsonV::obj().with("type"@, JsonV::Str(ty)).with("message"@, JsonV::Str(message))
}

pub(crate) fn make_typed_error(ty: &str, message: &str) -> (r: Json)
    ensures
        r@ == typed_error(ty@, message@),
{
    Json::obj().with_str("type", ty).with_str("message", message)
}

/// The error for a response without output.
pub open spec fn zero_output_json() -> JsonV {
    typed_error("rate_limit_error"@, "Empty response from upstream (zero output tokens)"@)
}

// ── messages that are no stream ────────────────────────────────

/// The block for a call in the chat form.
pub open spec fn call_block(call: JsonV) -> JsonV {
    let arguments = match json::str_in(call.get2("function"@, "arguments"@)) {
        Some(s) => s,
        None => "{}"@,
    };
    JsonV::obj().with("type"@, JsonV::Str("tool_use"@)).with("id"@, call.or_null("id"@)).with(
        "name"@,
        cc::opt_or_null(call.get2("function"@, "name"@)),
    ).with("input"@, util::parsed_or_empty(arguments))
}

/// The blocks of a message: its thinking, its text, its calls.
pub open spec fn message_blocks(full_text: Seq<char>, thinking_text: Seq<char>, calls: Seq<JsonV>) -> Seq<JsonV> {
    let first = if thinking_text.len() > 0 {
        seq![
            JsonV::obj().with("type"@, JsonV::Str("thinking"@)).with("thinking"@, JsonV::Str(thinking_text)).with(
                "signature"@,
                JsonV::Str(errors::signature_of(thinking_text)),
            ),
        ]
    } else {
        Seq::empty()
    };
    let second = if full_text.len() > 0 {
        seq![cc::text_part(full_text)]
    } else {
        Seq::empty()
    };
    first + second + calls.map_values(|c: JsonV| call_block(c))
}

/// The output tokens as guessed from the length of the answer: one for four characters, and 20
/// for a call; at least one.
pub open spec fn guessed_output(chars: nat, calls: nat) -> i64 {
    let n = ((chars + 3) / 4 + calls * 20) as i64;
    if n > 1 {
        n
    } else {
        1
    }
}

/// A message that is no stream.
pub open spec fn message_object(
    uuid: Seq<char>,
    model: Seq<char>,
    full_text: Seq<char>,
    calls: Seq<JsonV>,
    finish_reason: Seq<char>,
    usage: Option<JsonV>,
    thinking_text: Seq<char>,
) -> JsonV {
    let u = errors::usage_normal(
        match usage {
            Some(u) => if u is Object {
                u
            } else {
                JsonV::obj()
            },
            None => JsonV::obj(),
        },
    );
    let reported = util::integer_or(u.get("outputTokens"@), 0);
    let output = if reported == 0 {
        guessed_output(full_text.len() + thinking_text.len(), calls.len())
    } else {
        reported
    };
    JsonV::obj().with("id"@, JsonV::Str("msg_"@ + util::short_id_text(uuid, 12))).with(
        "type"@,
        JsonV::Str("message"@),
    ).with("role"@, JsonV::Str("assistant"@)).with("model"@, JsonV::Str(model)).with(
        "content"@,
        JsonV::Array(message_blocks(full_text, thinking_text, calls)),
    ).with("stop_reason"@, JsonV::Str(errors::stop_reason_of(finish_reason))).with("stop_sequence"@, JsonV::Null).with(
        "usage"@,
        JsonV::obj().with(
            "input_tokens"@,
            json::int_json(errors::input_tokens_of(Some(u), None) as int),
        ).with("output_tokens"@, json::int_json(output as int)).with(
            "cache_creation_input_tokens"@,
            json::int_json(util::integer_or(u.get2("inputTokenDetails"@, "cacheWriteTokens"@), 0) as int),
        ).with(
            "cache_read_input_tokens"@,
            json::int_json(util::integer_or(u.get("cachedInputTokens"@), 0) as int),
        ),
    )
}

fn make_call_block(call: &Json) -> (r: Json)
    ensures
        r@ == call_block(call@),
{
    let input = match call.get2("function", "arguments") {
        Some(a) => match a.as_str() {
            Some(s) => try_parse_json(s),
            None => try_parse_json("{}"),
        },
        None => try_parse_json("{}"),
    };
    Json::obj().with_str("type", "tool_use").with("id", call.or_null("id")).with(
        "name",
        copy_or_null(call.get2("function", "name")),
    ).with("input", input)
}

fn make_message_blocks(full_text: &str, thinking_text: &str, calls: &Items) -> (r: Vec<Json>)
    ensures
        json::models(r@) == message_blocks(full_text@, thinking_text@, calls@),
{
    let mut out = no_json();
    if !thinking_text.is_empty() {
        push_json(
            &mut out,
            Json::obj().with_str("type", "thinking").with_str("thinking", thinking_text).with_str(
                "signature",
                fake_thinking_signature(thinking_text).as_str(),
            ),
        );
    }
    if !full_text.is_empty() {
        push_json(&mut out, make_text_part(full_text));
    }
    let ghost all = calls@.map_values(|c: JsonV| call_block(c));
    let ghost start = json::models(out@);
    let mut i: usize = 0;
    assert(start + all.take(0) =~= start);
    while i < calls.len()
        invariant
            i <= calls@.len(),
            all == calls@.map_values(|c: JsonV| call_block(c)),
            json::models(out@) == start + all.take(i as int),
        decreases calls@.len() - i,
    {
        push_json(&mut out, make_call_block(calls.at(i)));
        i = i + 1;
        assert(start + all.take(i as int) =~= (start + all.take(i - 1)).push(all[i - 1]));
    }
    assert(all.take(i as int) =~= all);
    assert(json::models(out@) =~= message_blocks(full_text@, thinking_text@, calls@));
    out
}

fn guess_output(full_text: &str, thinking_text: &str, calls: usize) -> (r: i64)
    ensures
        r == guessed_output(full_text@.len() + thinking_text@.len(), calls as nat),
{
    let chars: u128 = chars_of(full_text).len() as u128 + chars_of(thinking_text).len() as u128;
    let n: i64 = ((chars + 3) / 4 + calls as u128 * 20) as i64;
    if n > 1 {
        n
    } else {
        1
    }
}

/// A message that is no stream; the UUID makes its identifier.
pub fn build_anthropic_response_with(
    model: &str,
    full_text: &str,
    tool_calls: Option<&Vec<Json>>,
    finish_reason: &str,
    usage: Option<&Json>,
    thinking_text: &str,
    uuid: &str,
) -> (r: Json)
    ensures
        r@ == message_object(
            uuid@,
            model@,
            full_text@,
            calls_in(tool_calls),
            finish_reason@,
            json::opt_json(usage),
            thinking_text@,
        ),
{
    let calls = Items::of(tool_calls);
    let mut u = match usage {
        Some(u) => if u.is_object() {
            u.clone()
        } else {
            Json::obj()
        },
        None => Json::obj(),
    };
    normalize_usage(&mut u);
    let reported: i64 = nullish_i64(u.get("outputTokens"), 0);
    let output: i64 = if reported == 0 {
        guess_output(full_text, thinking_text, calls.len())
    } else {
        reported
    };
    let counts = Json::obj().with_int("input_tokens", anthropic_input_tokens(Some(&u), None)).with_int(
        "output_tokens",
        output,
    ).with_int(
        "cache_creation_input_tokens",
        nullish_i64(u.get2("inputTokenDetails", "cacheWriteTokens"), 0),
    ).with_int("cache_read_input_tokens", nullish_i64(u.get("cachedInputTokens"), 0));
    Json::obj().with_str("id", cat("msg_", short_id(uuid, 12).as_str()).as_str()).with_str("type", "message").with_str(
        "role",
        "assistant",
    ).with_str("model", model).with("content", Json::array(make_message_blocks(full_text, thinking_text, &calls))).with_str(
        "stop_reason",
        map_anthropic_stop_reason(finish_reason),
    ).with("stop_sequence", Json::Null).with("usage", counts)
}

/// A message that is no stream; its identifier is random.
pub fn build_anthropic_response(
    model: &str,
    full_text: &str,
    tool_calls: Option<&Vec<Json>>,
    finish_reason: &str,
    usage: Option<&Json>,
    thinking_text: &str,
) -> (r: Json)
    ensures
        exists|uuid: Seq<char>|
            util::uuid_text(uuid) && r@ == #[trigger] message_object(
                uuid,
                model@,
                full_text@,
                calls_in(tool_calls),
                finish_reason@,
                json::opt_json(usage),
                thinking_text@,
            ),
{
    let uuid = random_uuid();
    build_anthropic_response_with(model, full_text, tool_calls, finish_reason, usage, thinking_text, uuid.as_str())
}

/// The calls of a list that may be absent.
pub open spec fn calls_in(o: Option<&Vec<Json>>) -> Seq<JsonV> {
    match o {
        Some(v) => json::models(v@),
        None => Seq::empty(),
    }
}

// ── texts of frames ────────────────────────────────────────────

fn block_start_text(index: usize, block: Json) -> (r: String)
    ensures
        r@ == (FrameV::BlockStart { index: index as int, block: block@ }).text(),
{
    make_sse(
        "content_block_start",
        &Json::obj().with_str("type", "content_block_start").with("index", Json::of_uint(index as u64)).with(
            "content_block",
            block,
        ),
    )
}

fn block_delta_text(index: usize, delta: Json) -> (r: String)
    ensures
        r@ == (FrameV::BlockDelta { index: index as int, delta: delta@ }).text(),
{
    make_sse(
        "content_block_delta",
        &Json::obj().with_str("type", "content_block_delta").with("index", Json::of_uint(index as u64)).with(
            "delta",
            delta,
        ),
    )
}

fn block_stop_text(index: usize) -> (r: String)
    ensures
        r@ == (FrameV::BlockStop { index: index as int }).text(),
{
    make_sse(
        "content_block_stop",
        &Json::obj().with_str("type", "content_block_stop").with("index", Json::of_uint(index as u64)),
    )
}

/// The body of an error in the Anthropic form.
pub(crate) fn make_error(error: Json, retry_after: Option<u64>) -> (r: Json)
    ensures
        r@ == error_json(error@, retry_after),
{
    Json::obj().with_str("type", "error").with("error", error).with_some(
        "retry_after",
        crate::errors::count_value(retry_after),
    )
}

pub(crate) fn error_text(error: Json, retry_after: Option<u64>) -> (r: String)
    ensures
        r@ == (FrameV::Error { error: error@, retry_after }).text(),
{
    make_sse("error", &make_error(error, retry_after))
}

fn blank(thinking: bool) -> (r: Json)
    ensures
        r@ == blank_block(thinking),
{
    if thinking {
        Json::obj().with_str("type", "thinking").with_str("thinking", "")
    } else {
        Json::obj().with_str("type", "text").with_str("text", "")
    }
}

fn make_text_delta(thinking: bool, t: &str) -> (r: Json)
    ensures
        r@ == text_delta(thinking, t@),
{
    if thinking {
        Json::obj().with_str("type", "thinking_delta").with_str("thinking", t)
    } else {
        Json::obj().with_str("type", "text_delta").with_str("text", t)
    }
}

fn error_of(m: &MappedError) -> (r: Json)
    ensures
        r@ == error_member(m@),
{
    match m.body.get("error") {
        Some(e) => e.clone(),
        None => Json::obj(),
    }
}

fn no_piece() -> (r: Vec<String>)
    ensures
        text::texts(r@) == piece_texts(Seq::empty()),
{
    let r = no_texts();
    assert(text::texts(r@) =~= piece_texts(Seq::empty()));
    r
}

proof fn lemma_piece_push(pieces: Seq<Seq<FrameV>>, p: Seq<FrameV>)
    ensures
        piece_texts(pieces.push(p)) == piece_texts(pieces).push(frames_text(p)),
{
    assert(piece_texts(pieces.push(p)) =~= piece_texts(pieces).push(frames_text(p)));
}

fn two_pieces(a: String, b: String) -> (r: Vec<String>)
    ensures
        text::texts(r@) == seq![a@, b@],
{
    let mut r = one_text(a);
    push_text(&mut r, b);
    assert(text::texts(r@) =~= seq![a@, b@]);
    r
}

impl AnthropicSseTranslator {
    pub open spec fn view(&self) -> AnthropicV {
        AnthropicV {
            message_id: self.message_id@,
            model: self.model@,
            next_block_index: self.next_block_index,
            open: self.open,
            input_tokens: self.input_tokens,
            output_tokens: self.output_tokens,
            cached_input_tokens: self.cached_input_tokens,
            cache_write_tokens: self.cache_write_tokens,
            no_cache_tokens: self.no_cache_tokens,
            stop_reason: text::text_opt(self.stop_reason),
            finish_norm: text::text_opt(self.finish_norm),
            saw_finish: self.saw_finish,
            has_error: self.has_error,
            current_thinking_text: self.current_thinking_text@,
            last_cc_event: self.last_cc_event@,
            upstream_error: errors::opt_mapped(self.upstream_error),
        }
    }

    pub fn new(model: &str, message_id: &str) -> (r: Self)
        ensures
            r@ == AnthropicV::start(model@, message_id@),
    {
        let r = AnthropicSseTranslator {
            message_id: message_id.to_owned(),
            model: model.to_owned(),
            next_block_index: 0,
            open: None,
            input_tokens: 0,
            output_tokens: 0,
            cached_input_tokens: 0,
            cache_write_tokens: 0,
            no_cache_tokens: -1,
            stop_reason: None,
            finish_norm: None,
            saw_finish: false,
            has_error: false,
            current_thinking_text: String::new(),
            last_cc_event: String::new(),
            upstream_error: None,
        };
        assert(r.last_cc_event@ =~= Seq::<char>::empty());
        assert(r.current_thinking_text@ =~= Seq::<char>::empty());
        r
    }

    pub fn input_tokens(&self) -> (r: i64)
        ensures
            r == self@.input_tokens,
    {
        self.input_tokens
    }

    pub fn output_tokens(&self) -> (r: i64)
        ensures
            r == self@.output_tokens,
    {
        self.output_tokens
    }

    pub fn cached_input_tokens(&self) -> (r: i64)
        ensures
            r == self@.cached_input_tokens,
    {
        self.cached_input_tokens
    }

    /// The event that begins every message.
    pub fn message_start(&self) -> (r: String)
        ensures
            r@ == self@.message_start_text(),
    {
        let message = Json::obj().with_str("id", self.message_id.as_str()).with_str("type", "message").with_str(
            "role",
            "assistant",
        ).with("content", Json::array(no_json())).with_str("model", self.model.as_str()).with(
            "usage",
            Json::obj().with_int("input_tokens", 0).with_int("output_tokens", 0),
        );
        make_sse("message_start", &Json::obj().with_str("type", "message_start").with("message", message))
    }

    fn close_block(&mut self) -> (r: String)
        ensures
            final(self)@ == old(self)@.closed(),
            r@ == frames_text(old(self)@.close_frames()),
    {
        match self.open {
            None => {
                let r = String::new();
                assert(r@ =~= frames_text(Seq::empty()));
                r
            },
            Some(b) => {
                let ghost before = self@;
                self.open = None;
                let stop = block_stop_text(b.index);
                if b.thinking {
                    let delta = Json::obj().with_str("type", "signature_delta").with_str(
                        "signature",
                        fake_thinking_signature(self.current_thinking_text.as_str()).as_str(),
                    );
                    let signed = block_delta_text(b.index, delta);
                    self.current_thinking_text = String::new();
                    assert(self.current_thinking_text@ =~= Seq::<char>::empty());
                    proof {
                        let f = FrameV::BlockDelta { index: b.index as int, delta: delta@ };
                        lemma_frames_one(f);
                        lemma_frames_push(seq![f], FrameV::BlockStop { index: b.index as int });
                        assert(before.close_frames() =~= seq![f].push(FrameV::BlockStop { index: b.index as int }));
                    }
                    cat(signed.as_str(), stop.as_str())
                } else {
                    proof {
                        lemma_frames_one(FrameV::BlockStop { index: b.index as int });
                    }
                    stop
                }
            },
        }
    }

    fn start_block(&mut self, thinking: bool) -> (r: String)
        ensures
            final(self)@ == old(self)@.opened(thinking),
            final(self).open is Some,
            r@ == frames_text(old(self)@.open_frames(thinking)),
    {
        let already = match self.open {
            Some(b) => b.thinking == thinking,
            None => false,
        };
        if already {
            let r = String::new();
            assert(r@ =~= frames_text(Seq::empty()));
            return r;
        }
        let ghost before = self@;
        let closing = self.close_block();
        let index: usize = self.next_block_index;
        self.open = Some(OpenBlock { thinking, index });
        self.next_block_index = index.wrapping_add(1);
        proof {
            lemma_frames_push(
                before.close_frames(),
                FrameV::BlockStart { index: index as int, block: blank_block(thinking) },
            );
        }
        cat(closing.as_str(), block_start_text(index, blank(thinking)).as_str())
    }

    fn thinking(&mut self, t: &str) -> (r: Vec<String>)
        ensures
            final(self)@ == old(self)@.on_thinking(t@).next,
            text::texts(r@) == piece_texts(old(self)@.on_thinking(t@).pieces),
    {
        if t.is_empty() {
            return no_piece();
        }
        let ghost before = self@;
        let start = self.start_block(true);
        let index: usize = match self.open {
            Some(b) => b.index,
            None => 0,
        };
        self.current_thinking_text.append(t);
        let delta = block_delta_text(index, make_text_delta(true, t));
        let r = two_pieces(start, delta);
        proof {
            lemma_frames_one(FrameV::BlockDelta { index: index as int, delta: text_delta(true, t@) });
            assert(text::texts(r@) =~= piece_texts(before.on_thinking(t@).pieces));
        }
        r
    }

    fn text(&mut self, t: &str) -> (r: Vec<String>)
        ensures
            final(self)@ == old(self)@.on_text(t@).next,
            text::texts(r@) == piece_texts(old(self)@.on_text(t@).pieces),
    {
        let ghost before = self@;
        let start = self.start_block(false);
        let index: usize = match self.open {
            Some(b) => b.index,
            None => 0,
        };
        let delta = block_delta_text(index, make_text_delta(false, t));
        self.output_tokens = self.output_tokens.wrapping_add(1);
        let r = two_pieces(start, delta);
        proof {
            lemma_frames_one(FrameV::BlockDelta { index: index as int, delta: text_delta(false, t@) });
            assert(text::texts(r@) =~= piece_texts(before.on_text(t@).pieces));
        }
        r
    }

    fn closing_piece(&mut self) -> (r: Vec<String>)
        ensures
            final(self)@ == old(self)@.closed(),
            text::texts(r@) == piece_texts(
                if old(self)@.open is Some {
                    seq![old(self)@.close_frames()]
                } else {
                    Seq::empty()
                },
            ),
    {
        let ghost before = self@;
        if self.open.is_some() {
            let r = one_text(self.close_block());
            assert(text::texts(r@) =~= piece_texts(seq![before.close_frames()]));
            r
        } else {
            no_piece()
        }
    }

    fn call(&mut self, e: &Json, uuid: &str) -> (r: Vec<String>)
        ensures
            final(self)@ == old(self)@.on_call(e@, uuid@).next,
            text::texts(r@) == piece_texts(old(self)@.on_call(e@, uuid@).pieces),
    {
        let ghost before = self@;
        let mut out = self.closing_piece();
        let id = match e.get_nonempty("toolCallId") {
            Some(id) => id.to_owned(),
            None => cat("toolu_", short_id(uuid, 12).as_str()),
        };
        let index: usize = self.next_block_index;
        self.next_block_index = index.wrapping_add(1);
        self.output_tokens = self.output_tokens.wrapping_add(20);
        let block = Json::obj().with_str("type", "tool_use").with_str("id", id.as_str()).with_str(
            "name",
            e.str_or("toolName", ""),
        ).with("input", Json::obj());
        let delta = Json::obj().with_str("type", "input_json_delta").with_str(
            "partial_json",
            tool_arguments(e).as_str(),
        );
        push_text(&mut out, block_start_text(index, block));
        push_text(&mut out, block_delta_text(index, delta));
        push_text(&mut out, block_stop_text(index));
        proof {
            let i = index as int;
            let first = if before.open is Some {
                seq![before.close_frames()]
            } else {
                Seq::empty()
            };
            let a = FrameV::BlockStart { index: i, block: block@ };
            let b = FrameV::BlockDelta { index: i, delta: delta@ };
            let c = FrameV::BlockStop { index: i };
            lemma_frames_one(a);
            lemma_frames_one(b);
            lemma_frames_one(c);
            lemma_piece_push(first, seq![a]);
            lemma_piece_push(first.push(seq![a]), seq![b]);
            lemma_piece_push(first.push(seq![a]).push(seq![b]), seq![c]);
        }
        out
    }

    fn finish(&mut self, e: &Json)
        ensures
            final(self)@ == old(self)@.on_finish(e@),
    {
        self.saw_finish = true;
        if let Some(fr) = e.get_str("finishReason") {
            let norm = map_finish_reason(fr);
            self.stop_reason = Some(map_anthropic_stop_reason(norm.as_str()).to_owned());
            self.finish_norm = Some(norm);
        }
        if let Some(u) = get_usage(e) {
            let mut u = u.clone();
            normalize_usage(&mut u);
            self.input_tokens = nullish_i64(u.get("inputTokens"), self.input_tokens);
            self.output_tokens = nullish_i64(u.get("outputTokens"), self.output_tokens);
            self.cached_input_tokens = nullish_i64(u.get("cachedInputTokens"), self.cached_input_tokens);
            self.cache_write_tokens = nullish_i64(
                u.get2("inputTokenDetails", "cacheWriteTokens"),
                self.cache_write_tokens,
            );
            self.no_cache_tokens = nullish_i64(u.get2("inputTokenDetails", "noCacheTokens"), self.no_cache_tokens);
        }
    }

    fn error(&mut self, e: &Json) -> (r: Vec<String>)
        ensures
            final(self)@ == (AnthropicV {
                has_error: true,
                upstream_error: Some(errors::event_error(e@)),
                ..old(self)@
            }),
            text::texts(r@) == piece_texts(
                seq![seq![FrameV::Error { error: error_member(errors::event_error(e@)), retry_after: None }]],
            ),
    {
        self.has_error = true;
        let mapped = map_cc_event_error(e);
        let r = one_text(error_text(error_of(&mapped), None));
        proof {
            let f = FrameV::Error { error: error_member(mapped@), retry_after: None };
            lemma_frames_one(f);
            assert(text::texts(r@) =~= piece_texts(seq![seq![f]]));
        }
        self.upstream_error = Some(mapped);
        r
    }

    /// Takes an event and gives the pieces of the stream for it; `uuid` makes the identifier of a
    /// tool call that names none.
    pub fn on_event(&mut self, e: &Json, uuid: &str) -> (r: Vec<String>)
        ensures
            final(self)@ == old(self)@.step(e@, uuid@).next,
            text::texts(r@) == piece_texts(old(self)@.step(e@, uuid@).pieces),
    {
        let ty = e.str_or("type", "");
        self.last_cc_event = ty.to_owned();
        if same(ty, "reasoning-delta") {
            let t = event_text(e);
            self.thinking(t.as_str())
        } else if same(ty, "text-delta") {
            let t = event_text(e);
            self.text(t.as_str())
        } else if same(ty, "tool-call") {
            self.call(e, uuid)
        } else if same(ty, "finish-step") || same(ty, "finish") {
            self.finish(e);
            no_piece()
        } else if same(ty, "error") {
            self.error(e)
        } else {
            no_piece()
        }
    }

    /// Takes a line and gives the pieces of the stream for it.
    pub fn parse_line_with(&mut self, line: &str, uuid: &str) -> (r: Vec<String>)
        ensures
            final(self)@ == old(self)@.line(line@, uuid@).next,
            text::texts(r@) == piece_texts(old(self)@.line(line@, uuid@).pieces),
    {
        match read_event(line, false) {
            Some(e) => self.on_event(&e, uuid),
            None => no_piece(),
        }
    }

    /// Takes a line and gives the pieces of the stream for it; a tool call that names no
    /// identifier gets a random one.
    pub fn parse_line(&mut self, line: &str) -> (r: Vec<String>)
        ensures
            exists|uuid: Seq<char>|
                util::uuid_text(uuid) && final(self)@ == (#[trigger] old(self)@.line(line@, uuid)).next && text::texts(
                    r@,
                ) == piece_texts(old(self)@.line(line@, uuid).pieces),
    {
        let uuid = random_uuid();
        self.parse_line_with(line, uuid.as_str())
    }

    fn usage_value(&self) -> (r: Json)
        ensures
            r@ == self@.usage_json(),
    {
        let input: i64 = if self.no_cache_tokens >= 0 {
            self.no_cache_tokens
        } else {
            let n: i64 = self.input_tokens.wrapping_sub(self.cached_input_tokens).wrapping_sub(
                self.cache_write_tokens,
            );
            if n > 0 {
                n
            } else {
                0
            }
        };
        Json::obj().with_int("output_tokens", self.output_tokens).with_int(
            "cache_read_input_tokens",
            self.cached_input_tokens,
        ).with_int("cache_creation_input_tokens", self.cache_write_tokens).with_int("input_tokens", input)
    }

    /// Why the answer is not whole, if it is not.
    pub fn incomplete_detail(&self) -> (r: Option<&'static str>)
        ensures
            text::str_opt(r) == self@.incomplete(),
    {
        let fr: Option<&str> = match &self.finish_norm {
            Some(s) => Some(s.as_str()),
            None => None,
        };
        incomplete_upstream_detail(self.saw_finish, fr)
    }

    fn last_texts(&self) -> (r: Vec<String>)
        ensures
            text::texts(r@) == piece_texts(self@.last_frames().map_values(|f: FrameV| seq![f])),
    {
        let ghost want = self@.last_frames().map_values(|f: FrameV| seq![f]);
        match self.incomplete_detail() {
            Some(detail) => {
                let m = incomplete_upstream_error(detail);
                let r = one_text(error_text(error_of(&m), None));
                proof {
                    lemma_frames_one(self@.last_frames()[0]);
                    assert(text::texts(r@) =~= piece_texts(want));
                }
                r
            },
            None => if self.output_tokens == 0 {
                let r = one_text(
                    error_text(
                        make_typed_error("rate_limit_error", "Empty response from upstream (zero output tokens)"),
                        Some(10),
                    ),
                );
                proof {
                    lemma_frames_one(self@.last_frames()[0]);
                    assert(text::texts(r@) =~= piece_texts(want));
                }
                r
            } else {
                let reason = match &self.stop_reason {
                    Some(s) => s.as_str(),
                    None => "end_turn",
                };
                let delta = Json::obj().with_str("type", "message_delta").with(
                    "delta",
                    Json::obj().with_str("stop_reason", reason),
                ).with("usage", self.usage_value());
                let r = two_pieces(
                    make_sse("message_delta", &delta),
                    make_sse("message_stop", &Json::obj().with_str("type", "message_stop")),
                );
                proof {
                    lemma_frames_one(self@.last_frames()[0]);
                    lemma_frames_one(self@.last_frames()[1]);
                    assert(text::texts(r@) =~= piece_texts(want));
                }
                r
            },
        }
    }

    /// Ends the stream: closes the open block, and ends the message or tells the error.
    pub fn finalize(&mut self) -> (r: Vec<String>)
        ensures
            final(self)@ == old(self)@.finished().next,
            text::texts(r@) == piece_texts(old(self)@.finished().pieces),
    {
        if self.has_error {
            return no_piece();
        }
        let ghost before = self@;
        let mut out = self.closing_piece();
        let more = self.last_texts();
        crate::text::append_texts(&mut out, more);
        assert(self@.last_frames() == before.last_frames());
        assert(text::texts(out@) =~= piece_texts(before.finished().pieces));
        out
    }
}

// ── laws ───────────────────────────────────────────────────────

/// What a client that reads frames in their order knows.
pub struct ReaderV {
    /// How many blocks began.
    pub begun: int,
    /// The block that is open.
    pub open: Option<int>,
    /// Whether the reason for the end was told.
    pub closing: bool,
    /// Whether the message was ended.
    pub ended: bool,
    /// Whether each frame was one that may come at its place.
    pub in_order: bool,
}

impl ReaderV {
    pub open spec fn start() -> ReaderV {
        ReaderV { begun: 0, open: None, closing: false, ended: false, in_order: true }
    }

    /// A frame read. A block begins where none is open, with the next number; what is inside a
    /// block, and its end, name the open block; a message ends where no block is open.
    pub open spec fn read(self, f: FrameV) -> ReaderV {
        match f {
            FrameV::BlockStart { index, .. } => ReaderV {
                begun: self.begun + 1,
                open: Some(index),
                in_order: self.in_order && self.open is None && index == self.begun && !self.closing,
                ..self
            },
            FrameV::BlockDelta { index, .. } => ReaderV {
                in_order: self.in_order && self.open == Some(index),
                ..self
            },
            FrameV::BlockStop { index } => ReaderV {
                open: None,
                in_order: self.in_order && self.open == Some(index),
                ..self
            },
            FrameV::Error { .. } => ReaderV { in_order: self.in_order && !self.closing, ..self },
            FrameV::MessageDelta { .. } => ReaderV {
                closing: true,
                in_order: self.in_order && self.open is None && !self.closing,
                ..self
            },
            FrameV::MessageStop => ReaderV {
                ended: true,
                in_order: self.in_order && self.closing && !self.ended,
                ..self
            },
        }
    }

    pub open spec fn read_all(self, fs: Seq<FrameV>) -> ReaderV
        decreases fs.len(),
    {
        if fs.len() == 0 {
            self
        } else {
            self.read_all(fs.drop_last()).read(fs.last())
        }
    }
}

/// The frames of pieces.
pub open spec fn frames_in(pieces: Seq<Seq<FrameV>>) -> Seq<FrameV>
    decreases pieces.len(),
{
    if pieces.len() == 0 {
        Seq::empty()
    } else {
        frames_in(pieces.drop_last()) + pieces.last()
    }
}

impl AnthropicV {
    /// What lines do, with a UUID for each.
    pub open spec fn lines(self, lines: Seq<Seq<char>>, uuids: Seq<Seq<char>>) -> AnthropicStepV
        decreases lines.len(),
    {
        if lines.len() == 0 {
            self.quiet()
        } else {
            let before = self.lines(lines.drop_last(), uuids);
            let last = before.next.line(lines.last(), uuids[lines.len() - 1]);
            AnthropicStepV { next: last.next, pieces: before.pieces + last.pieces }
        }
    }

    /// Whether a reader of the frames so far knows what the translation knows.
    spec fn known_to(self, r: ReaderV) -> bool {
        r.in_order && !r.closing && !r.ended && r.begun == self.next_block_index && r.open == (match self.open {
            Some(b) => Some(b.index as int),
            None => None,
        })
    }
}

proof fn lemma_read_all_sum(r: ReaderV, a: Seq<FrameV>, b: Seq<FrameV>)
    ensures
        r.read_all(a + b) == r.read_all(a).read_all(b),
    decreases b.len(),
{
    if b.len() == 0 {
        assert(a + b =~= a);
    } else {
        assert((a + b).drop_last() =~= a + b.drop_last());
        lemma_read_all_sum(r, a, b.drop_last());
    }
}

proof fn lemma_frames_in_sum(a: Seq<Seq<FrameV>>, b: Seq<Seq<FrameV>>)
    ensures
        frames_in(a + b) == frames_in(a) + frames_in(b),
    decreases b.len(),
{
    if b.len() == 0 {
        assert(a + b =~= a);
        assert(frames_in(a) + frames_in(b) =~= frames_in(a));
    } else {
        assert((a + b).drop_last() =~= a + b.drop_last());
        lemma_frames_in_sum(a, b.drop_last());
        assert(frames_in(a + b) =~= frames_in(a) + frames_in(b));
    }
}

proof fn lemma_frames_in_push(pieces: Seq<Seq<FrameV>>, p: Seq<FrameV>)
    ensures
        frames_in(pieces.push(p)) == frames_in(pieces) + p,
{
    assert(pieces.push(p).drop_last() =~= pieces);
}

proof fn lemma_read_close(t: AnthropicV, r: ReaderV)
    requires
        t.known_to(r),
    ensures
        t.closed().known_to(r.read_all(t.close_frames())),
{
    reveal_with_fuel(ReaderV::read_all, 3);
    if let Some(b) = t.open {
        let fs = t.close_frames();
        if b.thinking {
            assert(fs.drop_last() =~= seq![fs[0]]);
            assert(seq![fs[0]].drop_last() =~= Seq::<FrameV>::empty());
        } else {
            assert(fs.drop_last() =~= Seq::<FrameV>::empty());
        }
    }
}

proof fn lemma_read_open(t: AnthropicV, r: ReaderV, thinking: bool)
    requires
        t.known_to(r),
        t.next_block_index < usize::MAX,
    ensures
        t.opened(thinking).known_to(r.read_all(t.open_frames(thinking))),
        t.opened(thinking).open is Some,
        t.opened(thinking).next_block_index <= t.next_block_index + 1,
{
    if !t.is_open(thinking) {
        lemma_read_close(t, r);
        let fs = t.open_frames(thinking);
        assert(fs.drop_last() =~= t.close_frames());
    }
}

/// Two pieces, where the second is one frame.
proof fn lemma_read_two(r: ReaderV, a: Seq<FrameV>, f: FrameV)
    ensures
        r.read_all(frames_in(seq![a, seq![f]])) == r.read_all(a).read(f),
{
    let p = seq![a, seq![f]];
    assert(p.drop_last() =~= seq![a]);
    assert(seq![a].drop_last() =~= Seq::<Seq<FrameV>>::empty());
    assert(frames_in(seq![a]) =~= a) by {
        assert(frames_in(Seq::empty()) =~= Seq::<FrameV>::empty());
    }
    assert(frames_in(p) =~= a.push(f));
    assert(a.push(f).drop_last() =~= a);
}

proof fn lemma_read_call(t: AnthropicV, r: ReaderV, e: JsonV, uuid: Seq<char>)
    requires
        t.known_to(r),
        t.next_block_index < usize::MAX,
    ensures
        t.on_call(e, uuid).next.known_to(r.read_all(frames_in(t.on_call(e, uuid).pieces))),
{
    let s = t.on_call(e, uuid);
    let before = if t.open is Some {
        seq![t.close_frames()]
    } else {
        Seq::empty()
    };
    lemma_read_close(t, r);
    assert(frames_in(before) =~= t.close_frames()) by {
        reveal_with_fuel(frames_in, 2);
        assert(seq![t.close_frames()].drop_last() =~= Seq::<Seq<FrameV>>::empty());
    }
    let n = s.pieces.len();
    let a = s.pieces[n - 3];
    let b = s.pieces[n - 2];
    let c = s.pieces[n - 1];
    assert(s.pieces =~= before.push(a).push(b).push(c));
    lemma_frames_in_push(before, a);
    lemma_frames_in_push(before.push(a), b);
    lemma_frames_in_push(before.push(a).push(b), c);
    let all = t.close_frames().push(a[0]).push(b[0]).push(c[0]);
    assert(frames_in(s.pieces) =~= all);
    assert(all.drop_last() =~= t.close_frames().push(a[0]).push(b[0]));
    assert(all.drop_last().drop_last() =~= t.close_frames().push(a[0]));
    assert(all.drop_last().drop_last().drop_last() =~= t.close_frames());
    assert(t.close_frames().push(a[0]).last() == a[0]);
    assert(all.drop_last().last() == b[0]);
    reveal_with_fuel(ReaderV::read_all, 4);
}

proof fn lemma_read_step(t: AnthropicV, r: ReaderV, e: JsonV, uuid: Seq<char>)
    requires
        t.known_to(r),
        t.next_block_index < usize::MAX,
    ensures
        t.step(e, uuid).next.known_to(r.read_all(frames_in(t.step(e, uuid).pieces))),
        t.step(e, uuid).next.next_block_index <= t.next_block_index + 1,
{
    let ty = events::type_of(e);
    let s = AnthropicV { last_cc_event: ty, ..t };
    assert(frames_in(Seq::empty()) =~= Seq::<FrameV>::empty());
    if ty == "reasoning-delta"@ {
        let x = events::event_text_of(e);
        if x.len() > 0 {
            lemma_read_open(s, r, true);
            let d = FrameV::BlockDelta { index: s.opened(true).open->0.index as int, delta: text_delta(true, x) };
            lemma_read_two(r, s.open_frames(true), d);
        }
    } else if ty == "text-delta"@ {
        let x = events::event_text_of(e);
        lemma_read_open(s, r, false);
        let d = FrameV::BlockDelta { index: s.opened(false).open->0.index as int, delta: text_delta(false, x) };
        lemma_read_two(r, s.open_frames(false), d);
    } else if ty == "tool-call"@ {
        lemma_read_call(s, r, e, uuid);
    } else if ty == "finish-step"@ || ty == "finish"@ {
    } else if ty == "error"@ {
        let f = FrameV::Error { error: error_member(errors::event_error(e)), retry_after: None };
        let p = seq![seq![f]];
        assert(p.drop_last() =~= Seq::<Seq<FrameV>>::empty());
        assert(frames_in(p) =~= seq![f]);
        assert(seq![f].drop_last() =~= Seq::<FrameV>::empty());
        reveal_with_fuel(ReaderV::read_all, 2);
    }
}

proof fn lemma_read_lines(t: AnthropicV, r: ReaderV, lines: Seq<Seq<char>>, uuids: Seq<Seq<char>>)
    requires
        t.known_to(r),
        t.next_block_index + lines.len() <= usize::MAX,
    ensures
        t.lines(lines, uuids).next.known_to(r.read_all(frames_in(t.lines(lines, uuids).pieces))),
        t.lines(lines, uuids).next.next_block_index <= t.next_block_index + lines.len(),
    decreases lines.len(),
{
    assert(frames_in(Seq::empty()) =~= Seq::<FrameV>::empty());
    if lines.len() > 0 {
        lemma_read_lines(t, r, lines.drop_last(), uuids);
        let before = t.lines(lines.drop_last(), uuids);
        let u = uuids[lines.len() - 1];
        let r1 = r.read_all(frames_in(before.pieces));
        let last = before.next.line(lines.last(), u);
        lemma_frames_in_sum(before.pieces, last.pieces);
        lemma_read_all_sum(r, frames_in(before.pieces), frames_in(last.pieces));
        if let Some(e) = events::event_in(lines.last(), false) {
            lemma_read_step(before.next, r1, e, u);
        }
    }
}

proof fn lemma_singles(fs: Seq<FrameV>)
    ensures
        frames_in(fs.map_values(|f: FrameV| seq![f])) == fs,
    decreases fs.len(),
{
    let p = fs.map_values(|f: FrameV| seq![f]);
    if fs.len() > 0 {
        lemma_singles(fs.drop_last());
        assert(p.drop_last() =~= fs.drop_last().map_values(|f: FrameV| seq![f]));
        assert(frames_in(p) =~= fs.drop_last().push(fs.last()));
        assert(fs.drop_last().push(fs.last()) =~= fs);
    } else {
        assert(frames_in(p) =~= fs);
    }
}

proof fn lemma_read_end(t: AnthropicV, r: ReaderV)
    requires
        t.known_to(r),
        !t.has_error,
    ensures
        ({
            let end = r.read_all(frames_in(t.finished().pieces));
            end.in_order && end.open is None && end.begun == r.begun && end.ended == (t.incomplete() is None
                && t.output_tokens != 0)
        }),
{
    let before = if t.open is Some {
        seq![t.close_frames()]
    } else {
        Seq::empty()
    };
    lemma_read_close(t, r);
    assert(frames_in(before) =~= t.close_frames()) by {
        reveal_with_fuel(frames_in, 2);
        assert(seq![t.close_frames()].drop_last() =~= Seq::<Seq<FrameV>>::empty());
    }
    let fs = t.last_frames();
    let singles = fs.map_values(|f: FrameV| seq![f]);
    lemma_singles(fs);
    lemma_frames_in_sum(before, singles);
    let r1 = r.read_all(t.close_frames());
    lemma_read_all_sum(r, t.close_frames(), fs);
    reveal_with_fuel(ReaderV::read_all, 3);
    if fs.len() == 1 {
        assert(fs.drop_last() =~= Seq::<FrameV>::empty());
    } else {
        assert(fs.drop_last() =~= seq![fs[0]]);
        assert(fs.drop_last().drop_last() =~= Seq::<FrameV>::empty());
    }
}

/// Whatever the upstream says, the client reads frames that are in order: blocks are numbered
/// from zero without a gap, one begins only where the one before it ended, and at the end of a
/// stream without an error event none is left open. The message is ended exactly where the
/// upstream told its end, no connection failed, and there was output.
pub proof fn frames_are_in_order(
    model: Seq<char>,
    message_id: Seq<char>,
    lines: Seq<Seq<char>>,
    uuids: Seq<Seq<char>>,
)
    requires
        lines.len() <= usize::MAX,
    ensures
        ({
            let s = AnthropicV::start(model, message_id).lines(lines, uuids);
            let read = ReaderV::start().read_all(frames_in(s.pieces));
            let end = ReaderV::start().read_all(frames_in(s.pieces + s.next.finished().pieces));
            &&& read.in_order && !read.closing
            &&& read.begun == s.next.next_block_index
            &&& end.in_order
            &&& end.begun == s.next.next_block_index
            &&& !s.next.has_error ==> end.open is None
            &&& end.ended == (!s.next.has_error && s.next.incomplete() is None && s.next.output_tokens != 0)
        }),
{
    let t = AnthropicV::start(model, message_id);
    let s = t.lines(lines, uuids);
    lemma_read_lines(t, ReaderV::start(), lines, uuids);
    let read = ReaderV::start().read_all(frames_in(s.pieces));
    let f = s.next.finished();
    lemma_frames_in_sum(s.pieces, f.pieces);
    lemma_read_all_sum(ReaderV::start(), frames_in(s.pieces), frames_in(f.pieces));
    if s.next.has_error {
        assert(frames_in(f.pieces) =~= Seq::<FrameV>::empty());
    } else {
        lemma_read_end(s.next, read);
    }
}

/// The members of an error in the Anthropic form can be read back.
pub proof fn error_members(error: JsonV, retry_after: Option<u64>)
    ensures
        error_json(error, retry_after).get("error"@) == Some(error),
        error_json(error, retry_after).get("retry_after"@) == errors::count_json(retry_after),
{
    broadcast use json::group_members;

    reveal_strlit("type");
    reveal_strlit("error");
    reveal_strlit("retry_after");
    assert("error"@.len() != "retry_after"@.len());
    assert("type"@.len() != "retry_after"@.len());
    let plain = JsonV::obj().with("type"@, JsonV::Str("error"@)).with("error"@, error);
    assert(plain.get("error"@) == Some(error));
    assert(plain.get("retry_after"@) is None);
}

/// The type and the message of an error can be read back.
pub proof fn typed_error_members(ty: Seq<char>, message: Seq<char>)
    ensures
        typed_error(ty, message).get("type"@) == Some(JsonV::Str(ty)),
        typed_error(ty, message).get("message"@) == Some(JsonV::Str(message)),
{
    broadcast use json::group_members;

    reveal_strlit("type");
    reveal_strlit("message");
    assert("type"@.len() != "message"@.len());
}

/// What a client that follows the thinking knows.
pub struct ListenerV {
    /// Whether a thinking block is open.
    pub open: bool,
    /// What was thought in it.
    pub said: Seq<char>,
    /// Whether it was signed.
    pub signed: bool,
    /// Whether each thinking block so far was signed as it must be.
    pub sound: bool,
}

impl ListenerV {
    pub open spec fn start() -> ListenerV {
        ListenerV { open: false, said: Seq::empty(), signed: false, sound: true }
    }

    /// A frame heard. In a thinking block come pieces of thinking, and behind them one signature,
    /// which is that of all that was thought in the block; the block ends signed. Neither comes
    /// in another block.
    pub open spec fn hear(self, f: FrameV) -> ListenerV {
        match f {
            FrameV::BlockStart { block, .. } => ListenerV {
                open: block.get_str("type"@) == Some("thinking"@),
                said: Seq::empty(),
                signed: false,
                ..self
            },
            FrameV::BlockDelta { delta, .. } => {
                let ty = delta.get_str("type"@);
                if ty == Some("thinking_delta"@) {
                    ListenerV {
                        said: self.said + delta.str_or("thinking"@, ""@),
                        sound: self.sound && self.open && !self.signed,
                        ..self
                    }
                } else if ty == Some("signature_delta"@) {
                    ListenerV {
                        signed: true,
                        sound: self.sound && self.open && !self.signed && delta.get_str("signature"@) == Some(
                            errors::signature_of(self.said),
                        ),
                        ..self
                    }
                } else {
                    ListenerV { sound: self.sound && !self.open, ..self }
                }
            },
            FrameV::BlockStop { .. } => ListenerV {
                open: false,
                sound: self.sound && (self.open ==> self.signed),
                ..self
            },
            _ => self,
        }
    }

    pub open spec fn hear_all(self, fs: Seq<FrameV>) -> ListenerV
        decreases fs.len(),
    {
        if fs.len() == 0 {
            self
        } else {
            self.hear_all(fs.drop_last()).hear(fs.last())
        }
    }
}

impl AnthropicV {
    /// Whether a listener to the frames so far heard what the translation keeps.
    spec fn heard_by(self, l: ListenerV) -> bool {
        &&& l.sound
        &&& l.open == self.is_open(true)
        &&& l.open ==> !l.signed && l.said == self.current_thinking_text
        &&& !l.open ==> self.current_thinking_text.len() == 0
    }
}

proof fn lemma_hear_all_sum(l: ListenerV, a: Seq<FrameV>, b: Seq<FrameV>)
    ensures
        l.hear_all(a + b) == l.hear_all(a).hear_all(b),
    decreases b.len(),
{
    if b.len() == 0 {
        assert(a + b =~= a);
    } else {
        assert((a + b).drop_last() =~= a + b.drop_last());
        lemma_hear_all_sum(l, a, b.drop_last());
    }
}

proof fn lemma_delta_kinds(t: Seq<char>)
    ensures
        blank_block(true).get_str("type"@) == Some("thinking"@),
        blank_block(false).get_str("type"@) == Some("text"@),
        "text"@ != "thinking"@,
        text_delta(true, t).get_str("type"@) == Some("thinking_delta"@),
        text_delta(true, t).str_or("thinking"@, ""@) == t,
        text_delta(false, t).get_str("type"@) == Some("text_delta"@),
        signature_delta(t).get_str("type"@) == Some("signature_delta"@),
        signature_delta(t).get_str("signature"@) == Some(errors::signature_of(t)),
        "text_delta"@ != "thinking_delta"@,
        "text_delta"@ != "signature_delta"@,
        "signature_delta"@ != "thinking_delta"@,
{
    broadcast use json::group_members;

    reveal_strlit("type");
    reveal_strlit("text");
    reveal_strlit("thinking");
    reveal_strlit("signature");
    reveal_strlit("text_delta");
    reveal_strlit("thinking_delta");
    reveal_strlit("signature_delta");
    assert("type"@[1] == 'y' && "text"@[1] == 'e');
    assert("type"@.len() == 4 && "text"@.len() == 4 && "thinking"@.len() == 8 && "signature"@.len() == 9);
    assert("text_delta"@.len() == 10 && "thinking_delta"@.len() == 14 && "signature_delta"@.len() == 15);
}

proof fn lemma_call_kinds(id: JsonV, name: JsonV, arguments: JsonV)
    ensures
        ({
            let block = JsonV::obj().with("type"@, JsonV::Str("tool_use"@)).with("id"@, id).with("name"@, name).with(
                "input"@,
                JsonV::obj(),
            );
            let delta = JsonV::obj().with("type"@, JsonV::Str("input_json_delta"@)).with("partial_json"@, arguments);
            &&& block.get_str("type"@) == Some("tool_use"@)
            &&& delta.get_str("type"@) == Some("input_json_delta"@)
        }),
        "tool_use"@ != "thinking"@,
        "input_json_delta"@ != "thinking_delta"@,
        "input_json_delta"@ != "signature_delta"@,
{
    broadcast use json::group_members;

    reveal_strlit("type");
    reveal_strlit("id");
    reveal_strlit("name");
    reveal_strlit("input");
    reveal_strlit("partial_json");
    reveal_strlit("tool_use");
    reveal_strlit("thinking");
    reveal_strlit("input_json_delta");
    reveal_strlit("thinking_delta");
    reveal_strlit("signature_delta");
    assert("type"@[0] == 't' && "name"@[0] == 'n' && "type"@.len() == 4);
    assert("id"@.len() == 2 && "input"@.len() == 5 && "partial_json"@.len() == 12);
    assert("tool_use"@[1] == 'o' && "thinking"@[1] == 'h');
    assert("input_json_delta"@.len() == 16 && "thinking_delta"@.len() == 14 && "signature_delta"@.len() == 15);
    let a = JsonV::obj().with("type"@, JsonV::Str("tool_use"@));
    let b = a.with("id"@, id);
    assert(b.get("type"@) == a.get("type"@));
    let c = b.with("name"@, name);
    assert(c.get("type"@) == b.get("type"@));
}

proof fn lemma_hear_close(t: AnthropicV, l: ListenerV)
    requires
        t.heard_by(l),
    ensures
        t.closed().heard_by(l.hear_all(t.close_frames())),
{
    reveal_with_fuel(ListenerV::hear_all, 3);
    if let Some(b) = t.open {
        let fs = t.close_frames();
        if b.thinking {
            lemma_delta_kinds(t.current_thinking_text);
            assert(fs.drop_last() =~= seq![fs[0]]);
            assert(seq![fs[0]].drop_last() =~= Seq::<FrameV>::empty());
        } else {
            assert(fs.drop_last() =~= Seq::<FrameV>::empty());
        }
    }
}

proof fn lemma_hear_open(t: AnthropicV, l: ListenerV, thinking: bool)
    requires
        t.heard_by(l),
    ensures
        t.opened(thinking).heard_by(l.hear_all(t.open_frames(thinking))),
        t.opened(thinking).is_open(thinking),
{
    if !t.is_open(thinking) {
        lemma_hear_close(t, l);
        lemma_delta_kinds(Seq::empty());
        let fs = t.open_frames(thinking);
        assert(fs.drop_last() =~= t.close_frames());
        assert(t.closed().current_thinking_text =~= Seq::<char>::empty());
    }
}

/// Two pieces, where the second is one frame.
proof fn lemma_hear_two(l: ListenerV, a: Seq<FrameV>, f: FrameV)
    ensures
        l.hear_all(frames_in(seq![a, seq![f]])) == l.hear_all(a).hear(f),
{
    let p = seq![a, seq![f]];
    assert(p.drop_last() =~= seq![a]);
    assert(seq![a].drop_last() =~= Seq::<Seq<FrameV>>::empty());
    assert(frames_in(seq![a]) =~= a) by {
        assert(frames_in(Seq::empty()) =~= Seq::<FrameV>::empty());
    }
    assert(frames_in(p) =~= a.push(f));
    assert(a.push(f).drop_last() =~= a);
}

proof fn lemma_hear_push(l: ListenerV, fs: Seq<FrameV>, f: FrameV)
    ensures
        l.hear_all(fs.push(f)) == l.hear_all(fs).hear(f),
{
    assert(fs.push(f).drop_last() =~= fs);
}

/// A block of a tool call holds no thinking.
proof fn lemma_hear_block(l: ListenerV, index: int, block: JsonV, delta: JsonV)
    requires
        l.sound,
        block.get_str("type"@) == Some("tool_use"@),
        delta.get_str("type"@) == Some("input_json_delta"@),
        "tool_use"@ != "thinking"@,
        "input_json_delta"@ != "thinking_delta"@,
        "input_json_delta"@ != "signature_delta"@,
    ensures
        ({
            let end = l.hear(FrameV::BlockStart { index, block }).hear(FrameV::BlockDelta { index, delta }).hear(
                FrameV::BlockStop { index },
            );
            end.sound && !end.open
        }),
{
}

proof fn lemma_call_frames(t: AnthropicV, e: JsonV, uuid: Seq<char>, a: FrameV, b: FrameV, c: FrameV)
    requires
        ({
            let p = t.on_call(e, uuid).pieces;
            let n = p.len();
            p[n - 3] == seq![a] && p[n - 2] == seq![b] && p[n - 1] == seq![c]
        }),
    ensures
        frames_in(t.on_call(e, uuid).pieces) == t.close_frames().push(a).push(b).push(c),
{
    let p = t.on_call(e, uuid).pieces;
    let before = if t.open is Some {
        seq![t.close_frames()]
    } else {
        Seq::empty()
    };
    assert(frames_in(before) =~= t.close_frames()) by {
        reveal_with_fuel(frames_in, 2);
        assert(seq![t.close_frames()].drop_last() =~= Seq::<Seq<FrameV>>::empty());
    }
    assert(p =~= before.push(seq![a]).push(seq![b]).push(seq![c]));
    lemma_frames_in_push(before, seq![a]);
    lemma_frames_in_push(before.push(seq![a]), seq![b]);
    lemma_frames_in_push(before.push(seq![a]).push(seq![b]), seq![c]);
    assert(frames_in(p) =~= t.close_frames().push(a).push(b).push(c));
}

proof fn lemma_hear_call(t: AnthropicV, l: ListenerV, e: JsonV, uuid: Seq<char>)
    requires
        t.heard_by(l),
    ensures
        t.on_call(e, uuid).next.heard_by(l.hear_all(frames_in(t.on_call(e, uuid).pieces))),
{
    let id = match e.get_nonempty("toolCallId"@) {
        Some(id) => id,
        None => "toolu_"@ + util::short_id_text(uuid, 12),
    };
    let name = JsonV::Str(e.str_or("toolName"@, ""@));
    let arguments = JsonV::Str(events::arguments_of(e));
    let index = t.next_block_index as int;
    let block = JsonV::obj().with("type"@, JsonV::Str("tool_use"@)).with("id"@, JsonV::Str(id)).with("name"@, name).with(
        "input"@,
        JsonV::obj(),
    );
    let delta = JsonV::obj().with("type"@, JsonV::Str("input_json_delta"@)).with("partial_json"@, arguments);
    let a = FrameV::BlockStart { index, block };
    let b = FrameV::BlockDelta { index, delta };
    let c = FrameV::BlockStop { index };
    lemma_call_frames(t, e, uuid, a, b, c);
    lemma_hear_close(t, l);
    lemma_call_kinds(JsonV::Str(id), name, arguments);
    let fs = t.close_frames();
    lemma_hear_block(l.hear_all(fs), index, block, delta);
    lemma_hear_push(l, fs, a);
    lemma_hear_push(l, fs.push(a), b);
    lemma_hear_push(l, fs.push(a).push(b), c);
}

proof fn lemma_hear_step(t: AnthropicV, l: ListenerV, e: JsonV, uuid: Seq<char>)
    requires
        t.heard_by(l),
    ensures
        t.step(e, uuid).next.heard_by(l.hear_all(frames_in(t.step(e, uuid).pieces))),
{
    let ty = events::type_of(e);
    let s = AnthropicV { last_cc_event: ty, ..t };
    assert(frames_in(Seq::empty()) =~= Seq::<FrameV>::empty());
    let x = events::event_text_of(e);
    lemma_delta_kinds(x);
    if ty == "reasoning-delta"@ {
        if x.len() > 0 {
            lemma_hear_open(s, l, true);
            let d = FrameV::BlockDelta { index: s.opened(true).open->0.index as int, delta: text_delta(true, x) };
            lemma_hear_two(l, s.open_frames(true), d);
        }
    } else if ty == "text-delta"@ {
        lemma_hear_open(s, l, false);
        let d = FrameV::BlockDelta { index: s.opened(false).open->0.index as int, delta: text_delta(false, x) };
        lemma_hear_two(l, s.open_frames(false), d);
    } else if ty == "tool-call"@ {
        lemma_hear_call(s, l, e, uuid);
    } else if ty == "finish-step"@ || ty == "finish"@ {
    } else if ty == "error"@ {
        let f = FrameV::Error { error: error_member(errors::event_error(e)), retry_after: None };
        let p = seq![seq![f]];
        assert(p.drop_last() =~= Seq::<Seq<FrameV>>::empty());
        assert(frames_in(p) =~= seq![f]);
        assert(seq![f].drop_last() =~= Seq::<FrameV>::empty());
        reveal_with_fuel(ListenerV::hear_all, 2);
    }
}

proof fn lemma_hear_lines(t: AnthropicV, l: ListenerV, lines: Seq<Seq<char>>, uuids: Seq<Seq<char>>)
    requires
        t.heard_by(l),
    ensures
        t.lines(lines, uuids).next.heard_by(l.hear_all(frames_in(t.lines(lines, uuids).pieces))),
    decreases lines.len(),
{
    assert(frames_in(Seq::empty()) =~= Seq::<FrameV>::empty());
    if lines.len() > 0 {
        lemma_hear_lines(t, l, lines.drop_last(), uuids);
        let before = t.lines(lines.drop_last(), uuids);
        let u = uuids[lines.len() - 1];
        let l1 = l.hear_all(frames_in(before.pieces));
        let last = before.next.line(lines.last(), u);
        lemma_frames_in_sum(before.pieces, last.pieces);
        lemma_hear_all_sum(l, frames_in(before.pieces), frames_in(last.pieces));
        if let Some(e) = events::event_in(lines.last(), false) {
            lemma_hear_step(before.next, l1, e, u);
        }
    }
}

proof fn lemma_hear_end(t: AnthropicV, l: ListenerV)
    requires
        t.heard_by(l),
        !t.has_error,
    ensures
        ({
            let end = l.hear_all(frames_in(t.finished().pieces));
            end.sound && !end.open
        }),
{
    let before = if t.open is Some {
        seq![t.close_frames()]
    } else {
        Seq::empty()
    };
    lemma_hear_close(t, l);
    assert(frames_in(before) =~= t.close_frames()) by {
        reveal_with_fuel(frames_in, 2);
        assert(seq![t.close_frames()].drop_last() =~= Seq::<Seq<FrameV>>::empty());
    }
    let fs = t.last_frames();
    let singles = fs.map_values(|f: FrameV| seq![f]);
    lemma_singles(fs);
    lemma_frames_in_sum(before, singles);
    lemma_hear_all_sum(l, t.close_frames(), fs);
    reveal_with_fuel(ListenerV::hear_all, 3);
    if fs.len() == 1 {
        assert(fs.drop_last() =~= Seq::<FrameV>::empty());
    } else {
        assert(fs.drop_last() =~= seq![fs[0]]);
        assert(fs.drop_last().drop_last() =~= Seq::<FrameV>::empty());
    }
}

/// Whatever the upstream says, each thinking block that ends was signed just before with the
/// signature of all that was thought in it, and at the end of a stream without an error event
/// each has ended.
pub proof fn thinking_is_signed(
    model: Seq<char>,
    message_id: Seq<char>,
    lines: Seq<Seq<char>>,
    uuids: Seq<Seq<char>>,
)
    ensures
        ({
            let s = AnthropicV::start(model, message_id).lines(lines, uuids);
            let heard = ListenerV::start().hear_all(frames_in(s.pieces));
            let end = ListenerV::start().hear_all(frames_in(s.pieces + s.next.finished().pieces));
            &&& heard.sound
            &&& heard.open ==> heard.said == s.next.current_thinking_text
            &&& end.sound
            &&& !s.next.has_error ==> !end.open
        }),
{
    let t = AnthropicV::start(model, message_id);
    let s = t.lines(lines, uuids);
    let l = ListenerV::start();
    lemma_hear_lines(t, l, lines, uuids);
    let f = s.next.finished();
    lemma_frames_in_sum(s.pieces, f.pieces);
    lemma_hear_all_sum(l, frames_in(s.pieces), frames_in(f.pieces));
    if s.next.has_error {
        assert(frames_in(f.pieces) =~= Seq::<FrameV>::empty());
    } else {
        lemma_hear_end(s.next, l.hear_all(frames_in(s.pieces)));
    }
}

} // verus!
