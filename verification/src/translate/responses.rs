//! Upstream events as the event stream of an OpenAI response, and responses that are no stream.

use vstd::prelude::*;
use crate::cc::name_of_call;
use crate::errors;
use crate::errors::{
    incomplete_upstream_detail, incomplete_upstream_error, map_cc_event_error, map_finish_reason, normalize_usage,
    show, MappedError, MappedErrorV,
};
use crate::http_util;
use crate::http_util::set_members;
use crate::json;
use crate::json::{copy_list, no_json, one_json, push_json, Items, Json, JsonV};
use crate::text;
use crate::text::{append_texts, cat, no_texts, one_text, push_text, same};
use crate::translate::anthropic;
use crate::translate::anthropic::make_sse;
use crate::translate::events;
use crate::translate::events::{delta_text, event_text, get_usage, read_event, tool_arguments};
use crate::util;
use crate::util::{now_unix, nullish_i64, random_uuid, random_uuids, short_id};

verus! {

// ── identifiers ────────────────────────────────────────────────

/// An identifier made of a prefix and a UUID.
pub open spec fn id_of(prefix: Seq<char>, uuid: Seq<char>) -> Seq<char> {
    prefix + util::short_id_text(uuid, 24)
}

/// An identifier made of a prefix and a UUID.
pub fn responses_id(prefix: &str, uuid: &str) -> (r: String)
    ensures
        r@ == id_of(prefix@, uuid@),
{
    cat(prefix, short_id(uuid, 24).as_str())
}

/// A random identifier with a prefix.
pub fn new_responses_id(prefix: &str) -> (r: String)
    ensures
        exists|uuid: Seq<char>| util::uuid_text(uuid) && r@ == #[trigger] id_of(prefix@, uuid),
{
    let uuid = random_uuid();
    responses_id(prefix, uuid.as_str())
}

// ── frames ─────────────────────────────────────────────────────

/// What one event of the stream says.
pub enum EventV {
    Created { response: JsonV },
    InProgress { response: JsonV },
    ItemAdded { index: int, item: JsonV },
    /// An event within an item: its name and its data.
    Inner { index: int, name: Seq<char>, data: JsonV },
    ItemDone { index: int, item: JsonV },
    Completed { response: JsonV },
    Incomplete { response: JsonV },
    Failed { response: JsonV },
    Error { message: Seq<char> },
}

pub open spec fn response_data(response: JsonV) -> JsonV {
    JsonV::obj().with("response"@, response)
}

pub open spec fn item_data(index: int, item: JsonV) -> JsonV {
    JsonV::obj().with("output_index"@, json::int_json(index)).with("item"@, item)
}

pub open spec fn message_or_default(message: Seq<char>) -> Seq<char> {
    if message.len() == 0 {
        "Upstream error"@
    } else {
        message
    }
}

impl EventV {
    pub open spec fn name(self) -> Seq<char> {
        match self {
            EventV::Created { .. } => "response.created"@,
            EventV::InProgress { .. } => "response.in_progress"@,
            EventV::ItemAdded { .. } => "response.output_item.added"@,
            EventV::Inner { name, .. } => name,
            EventV::ItemDone { .. } => "response.output_item.done"@,
            EventV::Completed { .. } => "response.completed"@,
            EventV::Incomplete { .. } => "response.incomplete"@,
            EventV::Failed { .. } => "response.failed"@,
            EventV::Error { .. } => "error"@,
        }
    }

    pub open spec fn data(self) -> JsonV {
        match self {
            EventV::Created { response } => response_data(response),
            EventV::InProgress { response } => response_data(response),
            EventV::ItemAdded { index, item } => item_data(index, item),
            EventV::Inner { data, .. } => data,
            EventV::ItemDone { index, item } => item_data(index, item),
            EventV::Completed { response } => response_data(response),
            EventV::Incomplete { response } => response_data(response),
            EventV::Failed { response } => response_data(response),
            EventV::Error { message } => JsonV::obj().with("code"@, JsonV::Null).with(
                "message"@,
                JsonV::Str(message_or_default(message)),
            ).with("param"@, JsonV::Null),
        }
    }
}

/// The payload of an event: its name and its number in front of its data.
pub open spec fn payload(number: u64, name: Seq<char>, data: JsonV) -> JsonV {
    let head = JsonV::obj().with("type"@, JsonV::Str(name)).with("sequence_number"@, json::int_json(number as int));
    match data {
        JsonV::Object(es) => http_util::with_members(head, es, es.len()),
        _ => head,
    }
}

/// An event as text, with its number.
pub open spec fn numbered_text(number: u64, name: Seq<char>, data: JsonV) -> Seq<char> {
    anthropic::sse_text(name, payload(number, name, data))
}

/// The number `n` events after one.
pub open spec fn number_after(first: u64, n: nat) -> u64
    decreases n,
{
    if n == 0 {
        first
    } else {
        number_after(first, (n - 1) as nat).wrapping_add(1)
    }
}

/// Events as texts, numbered from `first` on.
pub open spec fn texts_from(first: u64, es: Seq<EventV>) -> Seq<Seq<char>> {
    Seq::new(es.len(), |i: int| numbered_text(number_after(first, i as nat), es[i].name(), es[i].data()))
}

proof fn lemma_number_sum(first: u64, m: nat, n: nat)
    ensures
        number_after(number_after(first, m), n) == number_after(first, m + n),
    decreases n,
{
    if n > 0 {
        lemma_number_sum(first, m, (n - 1) as nat);
    }
}

proof fn lemma_texts_push(first: u64, es: Seq<EventV>, e: EventV)
    ensures
        texts_from(first, es.push(e)) == texts_from(first, es).push(
            numbered_text(number_after(first, es.len()), e.name(), e.data()),
        ),
        number_after(first, es.push(e).len()) == number_after(first, es.len()).wrapping_add(1),
{
    assert(texts_from(first, es.push(e)) =~= texts_from(first, es).push(
        numbered_text(number_after(first, es.len()), e.name(), e.data()),
    ));
}

proof fn lemma_texts_sum(first: u64, a: Seq<EventV>, b: Seq<EventV>)
    ensures
        texts_from(first, a + b) == texts_from(first, a) + texts_from(number_after(first, a.len()), b),
        number_after(first, (a + b).len()) == number_after(number_after(first, a.len()), b.len()),
{
    assert forall|i: int| 0 <= i < b.len() implies number_after(number_after(first, a.len()), i as nat)
        == #[trigger] number_after(first, a.len() + i as nat) by {
        lemma_number_sum(first, a.len(), i as nat);
    }
    lemma_number_sum(first, a.len(), b.len());
    assert forall|i: int| 0 <= i < b.len() implies texts_from(first, a + b)[a.len() + i] == #[trigger] texts_from(
        number_after(first, a.len()),
        b,
    )[i] by {
        assert(number_after(first, a.len() + i as nat) == number_after(number_after(first, a.len()), i as nat));
        assert((a + b)[a.len() + i] == b[i]);
    }
    assert(texts_from(first, a + b) =~= texts_from(first, a) + texts_from(number_after(first, a.len()), b));
}

// ── the translation ────────────────────────────────────────────

#[derive(Debug, PartialEq, Eq, Clone, Copy, Structural)]
pub enum ItemKind {
    Message,
    FunctionCall,
    Reasoning,
}

/// The output item that is open.
pub struct CurrentItem {
    pub kind: ItemKind,
    pub index: usize,
    pub item: Json,
    pub text_buf: String,
}

/// The model of an open item.
pub struct CurrentItemV {
    pub kind: ItemKind,
    pub index: usize,
    pub item: JsonV,
    pub text_buf: Seq<char>,
}

impl CurrentItem {
    pub open spec fn view(&self) -> CurrentItemV {
        CurrentItemV { kind: self.kind, index: self.index, item: self.item@, text_buf: self.text_buf@ }
    }
}

/// The translation of one upstream stream.
pub struct ResponsesSseTranslator {
    pub model: String,
    pub response_id: String,
    pub created: i64,
    pub seq: u64,
    pub created_sent: bool,
    pub current: Option<CurrentItem>,
    pub output_index: usize,
    pub done_items: Vec<Json>,
    pub usage: Option<Json>,
    pub text_acc: String,
    pub finish_reason: Option<String>,
    pub saw_finish: bool,
    pub last_cc_event: String,
    pub upstream_error: Option<MappedError>,
    pub input_tokens: i64,
    pub output_tokens: i64,
    pub cached_input_tokens: i64,
}

/// The model of a translation.
pub struct ResponsesV {
    pub model: Seq<char>,
    pub response_id: Seq<char>,
    pub created: i64,
    pub seq: u64,
    pub created_sent: bool,
    pub current: Option<CurrentItemV>,
    pub output_index: usize,
    pub done_items: Seq<JsonV>,
    pub usage: Option<JsonV>,
    pub text_acc: Seq<char>,
    pub finish_reason: Option<Seq<char>>,
    pub saw_finish: bool,
    pub last_cc_event: Seq<char>,
    pub upstream_error: Option<MappedErrorV>,
    pub input_tokens: i64,
    pub output_tokens: i64,
    pub cached_input_tokens: i64,
}

/// The events that something gives, and the translation after it.
pub struct ResponsesStepV {
    pub next: ResponsesV,
    pub events: Seq<EventV>,
}

impl ResponsesStepV {
    /// The step followed by one that gives some more events.
    pub open spec fn followed_by(self, more: ResponsesStepV) -> ResponsesStepV {
        ResponsesStepV { next: more.next, events: self.events + more.events }
    }
}

pub open spec fn output_text_part(t: Seq<char>) -> JsonV {
    JsonV::obj().with("type"@, JsonV::Str("output_text"@)).with("text"@, JsonV::Str(t)).with(
        "annotations"@,
        JsonV::Array(Seq::empty()),
    )
}

pub open spec fn summary_part(t: Seq<char>) -> JsonV {
    JsonV::obj().with("type"@, JsonV::Str("summary_text"@)).with("text"@, JsonV::Str(t))
}

/// The beginning of the data of an event within an item.
pub open spec fn inner_data(item: JsonV, index: int, sub_index: Option<Seq<char>>) -> JsonV {
    let d = JsonV::obj().with("item_id"@, item.or_null("id"@)).with("output_index"@, json::int_json(index));
    match sub_index {
        Some(k) => d.with(k, json::int_json(0)),
        None => d,
    }
}

impl CurrentItemV {
    /// The item when it is complete.
    pub open spec fn done_item(self) -> JsonV {
        let item = match self.kind {
            ItemKind::Message => self.item.with("content"@, JsonV::Array(seq![output_text_part(self.text_buf)])),
            ItemKind::FunctionCall => self.item,
            ItemKind::Reasoning => self.item.with("summary"@, JsonV::Array(seq![summary_part(self.text_buf)])),
        };
        item.with("status"@, JsonV::Str("completed"@))
    }

    pub open spec fn inner(self, name: Seq<char>, data: JsonV) -> EventV {
        EventV::Inner { index: self.index as int, name, data }
    }

    /// The events that close the item.
    pub open spec fn close_events(self) -> Seq<EventV> {
        let i = self.index as int;
        let inner = match self.kind {
            ItemKind::Message => seq![
                self.inner(
                    "response.output_text.done"@,
                    inner_data(self.item, i, Some("content_index"@)).with("text"@, JsonV::Str(self.text_buf)).with(
                        "logprobs"@,
                        JsonV::Array(Seq::empty()),
                    ),
                ),
                self.inner(
                    "response.content_part.done"@,
                    inner_data(self.item, i, Some("content_index"@)).with("part"@, output_text_part(self.text_buf)),
                ),
            ],
            ItemKind::FunctionCall => seq![
                self.inner(
                    "response.function_call_arguments.done"@,
                    inner_data(self.item, i, None).with("arguments"@, self.item.or_null("arguments"@)),
                ),
            ],
            ItemKind::Reasoning => seq![
                self.inner(
                    "response.reasoning_summary_text.done"@,
                    inner_data(self.item, i, Some("summary_index"@)).with("text"@, JsonV::Str(self.text_buf)),
                ),
                self.inner(
                    "response.reasoning_summary_part.done"@,
                    inner_data(self.item, i, Some("summary_index"@)).with("part"@, summary_part(self.text_buf)),
                ),
            ],
        };
        inner.push(EventV::ItemDone { index: i, item: self.done_item() })
    }

    /// The events that open the item.
    pub open spec fn open_events(self) -> Seq<EventV> {
        let i = self.index as int;
        let first = seq![EventV::ItemAdded { index: i, item: self.item }];
        match self.kind {
            ItemKind::Message => first.push(
                self.inner(
                    "response.content_part.added"@,
                    inner_data(self.item, i, Some("content_index"@)).with("part"@, output_text_part(""@)),
                ),
            ),
            ItemKind::FunctionCall => first,
            ItemKind::Reasoning => first.push(
                self.inner(
                    "response.reasoning_summary_part.added"@,
                    inner_data(self.item, i, Some("summary_index"@)).with("part"@, summary_part(""@)),
                ),
            ),
        }
    }
}

pub open spec fn message_item(uuid: Seq<char>) -> JsonV {
    JsonV::obj().with("type"@, JsonV::Str("message"@)).with("id"@, JsonV::Str(id_of("msg_"@, uuid))).with(
        "status"@,
        JsonV::Str("in_progress"@),
    ).with("role"@, JsonV::Str("assistant"@)).with("content"@, JsonV::Array(Seq::empty()))
}

pub open spec fn reasoning_item(uuid: Seq<char>) -> JsonV {
    JsonV::obj().with("type"@, JsonV::Str("reasoning"@)).with("id"@, JsonV::Str(id_of("rs_"@, uuid))).with(
        "summary"@,
        JsonV::Array(Seq::empty()),
    ).with("status"@, JsonV::Str("in_progress"@))
}

/// The item of a tool call; `call_uuid` makes its call identifier where the event names none.
pub open spec fn call_item(e: JsonV, uuid: Seq<char>, call_uuid: Seq<char>) -> JsonV {
    let call_id = match e.get_nonempty("toolCallId"@) {
        Some(id) => id,
        None => id_of("call_"@, call_uuid),
    };
    JsonV::obj().with("type"@, JsonV::Str("function_call"@)).with("id"@, JsonV::Str(id_of("fc_"@, uuid))).with(
        "call_id"@,
        JsonV::Str(call_id),
    ).with("name"@, JsonV::Str(e.str_or("toolName"@, ""@))).with("arguments"@, JsonV::Str(""@)).with(
        "status"@,
        JsonV::Str("in_progress"@),
    )
}

/// Why a response is not whole.
pub open spec fn incomplete_details(finish_reason: Option<Seq<char>>) -> JsonV {
    if finish_reason == Some("length"@) {
        JsonV::obj().with("reason"@, JsonV::Str("max_output_tokens"@))
    } else if finish_reason == Some("pause_turn"@) {
        JsonV::obj().with("reason"@, JsonV::Str("pause_turn"@))
    } else {
        JsonV::Null
    }
}

/// Whether a response was cut off or paused.
pub open spec fn is_partial(finish_reason: Option<Seq<char>>) -> bool {
    finish_reason == Some("length"@) || finish_reason == Some("pause_turn"@)
}

pub open spec fn status_of(finish_reason: Option<Seq<char>>) -> Seq<char> {
    if is_partial(finish_reason) {
        "incomplete"@
    } else {
        "completed"@
    }
}

impl ResponsesV {
    /// The translation before any event.
    pub open spec fn start(model: Seq<char>, response_id: Seq<char>, created: i64) -> ResponsesV {
        ResponsesV {
            model,
            response_id,
            created,
            seq: 0,
            created_sent: false,
            current: None,
            output_index: 0,
            done_items: Seq::empty(),
            usage: None,
            text_acc: Seq::empty(),
            finish_reason: None,
            saw_finish: false,
            last_cc_event: Seq::empty(),
            upstream_error: None,
            input_tokens: 0,
            output_tokens: 0,
            cached_input_tokens: 0,
        }
    }

    pub open spec fn base_response(self, status: Seq<char>, output: Seq<JsonV>) -> JsonV {
        JsonV::obj().with("id"@, JsonV::Str(self.response_id)).with("object"@, JsonV::Str("response"@)).with(
            "created_at"@,
            json::int_json(self.created as int),
        ).with("status"@, JsonV::Str(status)).with("output"@, JsonV::Array(output)).with(
            "output_text"@,
            JsonV::Str(""@),
        ).with("model"@, JsonV::Str(self.model)).with("error"@, JsonV::Null).with(
            "incomplete_details"@,
            JsonV::Null,
        ).with("parallel_tool_calls"@, JsonV::Bool(true)).with("previous_response_id"@, JsonV::Null).with(
            "store"@,
            JsonV::Bool(false),
        ).with("tools"@, JsonV::Array(Seq::empty())).with("metadata"@, JsonV::obj())
    }

    /// The translation after it gave events.
    pub open spec fn numbered(self, events: Seq<EventV>) -> ResponsesV {
        ResponsesV { seq: number_after(self.seq, events.len()), ..self }
    }

    pub open spec fn quiet(self) -> ResponsesStepV {
        ResponsesStepV { next: self, events: Seq::empty() }
    }

    pub open spec fn gives(self, events: Seq<EventV>) -> ResponsesStepV {
        ResponsesStepV { next: self.numbered(events), events }
    }

    /// The beginning of the response, where it was not told yet.
    pub open spec fn begun(self) -> ResponsesStepV {
        if self.created_sent {
            self.quiet()
        } else {
            let r = self.base_response("in_progress"@, Seq::empty());
            ResponsesV { created_sent: true, ..self }.gives(
                seq![EventV::Created { response: r }, EventV::InProgress { response: r }],
            )
        }
    }

    /// The open item closed.
    pub open spec fn closed(self) -> ResponsesStepV {
        match self.current {
            None => self.quiet(),
            Some(c) => ResponsesV {
                current: None,
                done_items: self.done_items.push(c.done_item()),
                ..self
            }.gives(c.close_events()),
        }
    }

    /// A new item opened, behind the one that was open.
    pub open spec fn opened(self, kind: ItemKind, item: JsonV) -> ResponsesStepV {
        let s = self.closed();
        let c = CurrentItemV { kind, index: s.next.output_index, item, text_buf: Seq::empty() };
        s.followed_by(
            ResponsesV {
                current: Some(c),
                output_index: s.next.output_index.wrapping_add(1),
                ..s.next
            }.gives(c.open_events()),
        )
    }

    pub open spec fn is_open(self, kind: ItemKind) -> bool {
        match self.current {
            Some(c) => c.kind == kind,
            None => false,
        }
    }

    /// An item of the kind open: the open one, else a new one.
    pub open spec fn ensured(self, kind: ItemKind, item: JsonV) -> ResponsesStepV {
        if self.is_open(kind) {
            self.quiet()
        } else {
            self.opened(kind, item)
        }
    }

    /// A text added to the open item.
    pub open spec fn with_buffered(self, t: Seq<char>) -> ResponsesV {
        match self.current {
            Some(c) => ResponsesV { current: Some(CurrentItemV { text_buf: c.text_buf + t, ..c }), ..self },
            None => self,
        }
    }

    /// A piece of text; an empty one gives nothing.
    pub open spec fn on_text(self, t: Seq<char>, uuid: Seq<char>) -> ResponsesStepV {
        if t.len() == 0 {
            self.quiet()
        } else {
            let a = self.begun();
            let b = a.followed_by(a.next.ensured(ItemKind::Message, message_item(uuid)));
            let s = b.next.with_buffered(t);
            let c = s.current->0;
            b.followed_by(
                ResponsesV { text_acc: s.text_acc + t, ..s }.gives(
                    seq![
                        c.inner(
                            "response.output_text.delta"@,
                            inner_data(c.item, c.index as int, Some("content_index"@)).with(
                                "delta"@,
                                JsonV::Str(t),
                            ).with("logprobs"@, JsonV::Array(Seq::empty())),
                        ),
                    ],
                ),
            )
        }
    }

    /// A piece of reasoning; an empty one gives nothing.
    pub open spec fn on_reasoning(self, t: Seq<char>, uuid: Seq<char>) -> ResponsesStepV {
        if t.len() == 0 {
            self.quiet()
        } else {
            let a = self.begun();
            let b = a.followed_by(a.next.ensured(ItemKind::Reasoning, reasoning_item(uuid)));
            let s = b.next.with_buffered(t);
            let c = s.current->0;
            b.followed_by(
                s.gives(
                    seq![
                        c.inner(
                            "response.reasoning_summary_text.delta"@,
                            inner_data(c.item, c.index as int, Some("summary_index"@)).with("delta"@, JsonV::Str(t)),
                        ),
                    ],
                ),
            )
        }
    }

    /// The arguments of the open call set.
    pub open spec fn with_arguments(self, arguments: Seq<char>) -> ResponsesV {
        match self.current {
            Some(c) => ResponsesV {
                current: Some(CurrentItemV { item: c.item.with("arguments"@, JsonV::Str(arguments)), ..c }),
                ..self
            },
            None => self,
        }
    }

    /// A tool call, always in an item of its own.
    pub open spec fn on_call(self, e: JsonV, uuid: Seq<char>, call_uuid: Seq<char>) -> ResponsesStepV {
        let a = self.begun();
        let b = a.followed_by(a.next.opened(ItemKind::FunctionCall, call_item(e, uuid, call_uuid)));
        let s = b.next.with_arguments(events::arguments_of(e));
        let c = s.current->0;
        b.followed_by(
            s.gives(
                seq![
                    c.inner(
                        "response.function_call_arguments.delta"@,
                        inner_data(c.item, c.index as int, None).with("delta"@, JsonV::Str(events::arguments_of(e))),
                    ),
                ],
            ),
        )
    }

    /// The end of a step counts as an end.
    pub open spec fn on_finish_step(self, e: JsonV) -> ResponsesV {
        ResponsesV {
            saw_finish: true,
            finish_reason: match e.get_str("finishReason"@) {
                Some(fr) => Some(errors::finish_reason_of(fr)),
                None => self.finish_reason,
            },
            ..self
        }
    }

    pub open spec fn on_finish(self, e: JsonV) -> ResponsesV {
        let s = ResponsesV {
            saw_finish: true,
            finish_reason: match e.get_str("finishReason"@) {
                Some(fr) => Some(errors::finish_reason_of(fr)),
                None => None,
            },
            ..self
        };
        match events::usage_in(e) {
            Some(u) => {
                let u = errors::usage_normal(u);
                ResponsesV {
                    input_tokens: util::integer_or(u.get("inputTokens"@), 0),
                    output_tokens: util::integer_or(u.get("outputTokens"@), 0),
                    cached_input_tokens: util::integer_or(u.get("cachedInputTokens"@), 0),
                    usage: Some(u),
                    ..s
                }
            },
            None => s,
        }
    }

    /// What an event does. An error is kept for the end of the stream; events without content,
    /// and unknown ones, give nothing.
    pub open spec fn step(self, e: JsonV, uuid: Seq<char>, call_uuid: Seq<char>) -> ResponsesStepV {
        let ty = events::type_of(e);
        let s = ResponsesV { last_cc_event: ty, ..self };
        if ty == "text-delta"@ {
            s.on_text(events::delta_text_of(e), uuid)
        } else if ty == "reasoning-delta"@ {
            s.on_reasoning(events::event_text_of(e), uuid)
        } else if ty == "tool-call"@ {
            s.on_call(e, uuid, call_uuid)
        } else if ty == "finish-step"@ {
            s.on_finish_step(e).quiet()
        } else if ty == "finish"@ {
            s.on_finish(e).quiet()
        } else if ty == "error"@ {
            ResponsesV { upstream_error: Some(errors::event_error(e)), ..s }.quiet()
        } else {
            s.quiet()
        }
    }

    /// What a line does.
    pub open spec fn line(self, line: Seq<char>, uuid: Seq<char>, call_uuid: Seq<char>) -> ResponsesStepV {
        match events::event_in(line, true) {
            Some(e) => self.step(e, uuid, call_uuid),
            None => self.quiet(),
        }
    }

    pub open spec fn incomplete(self) -> Option<Seq<char>> {
        errors::incomplete_detail_of(self.saw_finish, self.finish_reason)
    }

    /// A response that failed.
    pub open spec fn failed_response(self, message: JsonV) -> JsonV {
        self.base_response("failed"@, Seq::empty()).with(
            "error"@,
            JsonV::obj().with("code"@, JsonV::Str("upstream_error"@)).with("message"@, message),
        )
    }

    /// The whole response.
    pub open spec fn final_response(self) -> JsonV {
        self.base_response(status_of(self.finish_reason), self.done_items).with(
            "output_text"@,
            JsonV::Str(self.text_acc),
        ).with("incomplete_details"@, incomplete_details(self.finish_reason)).with(
            "usage"@,
            responses_usage(self.usage, self.output_tokens),
        )
    }

    /// The last event of a stream that began: a failure where it was cut off.
    pub open spec fn last_event(self) -> EventV {
        match self.incomplete() {
            Some(detail) => EventV::Failed {
                response: self.failed_response(
                    match errors::incomplete_error(detail).body.get2("error"@, "message"@) {
                        Some(m) => m,
                        None => JsonV::Null,
                    },
                ),
            },
            None => if is_partial(self.finish_reason) {
                EventV::Incomplete { response: self.final_response() }
            } else {
                EventV::Completed { response: self.final_response() }
            },
        }
    }

    /// The end of the stream.
    pub open spec fn finished(self) -> ResponsesStepV {
        if !self.created_sent {
            self.quiet()
        } else {
            let a = self.closed();
            a.followed_by(a.next.gives(seq![a.next.last_event()]))
        }
    }

    /// The stream given up with a message.
    pub open spec fn failed(self, message: Seq<char>) -> ResponsesStepV {
        if !self.created_sent {
            self.quiet()
        } else {
            self.gives(
                seq![EventV::Failed { response: self.failed_response(JsonV::Str(message_or_default(message))) }],
            )
        }
    }
}

/// The token counts of a response. `fallback` is the output where the report names none.
pub open spec fn responses_usage(usage: Option<JsonV>, fallback: i64) -> JsonV {
    let u = errors::usage_normal(
        match usage {
            Some(u) => if u is Object {
                u
            } else {
                JsonV::obj()
            },
            None => JsonV::obj(),
        },
    );
    let input = util::integer_or(u.get("inputTokens"@), 0);
    let reported = util::integer_or(u.get("outputTokens"@), 0);
    let output = if reported == 0 {
        fallback
    } else {
        reported
    };
    JsonV::obj().with("input_tokens"@, json::int_json(input as int)).with(
        "input_tokens_details"@,
        JsonV::obj().with(
            "cached_tokens"@,
            json::int_json(util::integer_or(u.get("cachedInputTokens"@), 0) as int),
        ).with(
            "cache_write_tokens"@,
            json::int_json(util::integer_or(u.get2("inputTokenDetails"@, "cacheWriteTokens"@), 0) as int),
        ),
    ).with("output_tokens"@, json::int_json(output as int)).with(
        "output_tokens_details"@,
        JsonV::obj().with("reasoning_tokens"@, json::int_json(0)),
    ).with("total_tokens"@, json::int_json(input.wrapping_add(output) as int))
}

/// The token counts of a response: the input includes what came from the cache.
pub fn build_responses_usage(usage: Option<&Json>, fallback_output_tokens: i64) -> (r: Json)
    ensures
        r@ == responses_usage(json::opt_json(usage), fallback_output_tokens),
{
    let mut u = match usage {
        Some(u) => if u.is_object() {
            u.clone()
        } else {
            Json::obj()
        },
        None => Json::obj(),
    };
    normalize_usage(&mut u);
    let input: i64 = nullish_i64(u.get("inputTokens"), 0);
    let reported: i64 = nullish_i64(u.get("outputTokens"), 0);
    let output: i64 = if reported == 0 {
        fallback_output_tokens
    } else {
        reported
    };
    Json::obj().with_int("input_tokens", input).with(
        "input_tokens_details",
        Json::obj().with_int("cached_tokens", nullish_i64(u.get("cachedInputTokens"), 0)).with_int(
            "cache_write_tokens",
            nullish_i64(u.get2("inputTokenDetails", "cacheWriteTokens"), 0),
        ),
    ).with_int("output_tokens", output).with("output_tokens_details", Json::obj().with_int("reasoning_tokens", 0)).with_int(
        "total_tokens",
        input.wrapping_add(output),
    )
}

// ── responses that are no stream ───────────────────────────────

/// The arguments of a call in the chat form.
pub open spec fn call_arguments(call: JsonV) -> Seq<char> {
    match call.get2("function"@, "arguments"@) {
        Some(j) => errors::shown(j),
        None => "{}"@,
    }
}

/// The output item for a call in the chat form.
pub open spec fn output_call(call: JsonV, uuid: Seq<char>) -> JsonV {
    JsonV::obj().with("type"@, JsonV::Str("function_call"@)).with("id"@, JsonV::Str(id_of("fc_"@, uuid))).with(
        "call_id"@,
        call.or_null("id"@),
    ).with("name"@, JsonV::Str(crate::cc::call_name(call))).with(
        "arguments"@,
        JsonV::Str(call_arguments(call)),
    ).with("status"@, JsonV::Str("completed"@))
}

/// The UUIDs that make the identifiers of output items.
pub struct OutputIds {
    pub reasoning: String,
    pub message: String,
    /// One for each call.
    pub calls: Vec<String>,
}

/// The model of those UUIDs.
pub struct OutputIdsV {
    pub reasoning: Seq<char>,
    pub message: Seq<char>,
    pub calls: Seq<Seq<char>>,
}

impl OutputIdsV {
    /// Random UUIDs, for so many calls.
    pub open spec fn random(self, calls: nat) -> bool {
        util::uuid_text(self.reasoning) && util::uuid_text(self.message) && util::uuid_list(self.calls, calls)
    }
}

impl OutputIds {
    pub open spec fn view(&self) -> OutputIdsV {
        OutputIdsV { reasoning: self.reasoning@, message: self.message@, calls: text::texts(self.calls@) }
    }

    pub(crate) fn random(calls: usize) -> (r: Self)
        ensures
            r@.random(calls as nat),
            r.calls@.len() == calls,
    {
        OutputIds { reasoning: random_uuid(), message: random_uuid(), calls: random_uuids(calls) }
    }
}

/// The output items of a response: its reasoning, its text, its calls.
pub open spec fn output_of(
    full_text: Seq<char>,
    thinking_text: Seq<char>,
    calls: Seq<JsonV>,
    ids: OutputIdsV,
) -> Seq<JsonV> {
    let first = if thinking_text.len() > 0 {
        seq![
            JsonV::obj().with("type"@, JsonV::Str("reasoning"@)).with(
                "id"@,
                JsonV::Str(id_of("rs_"@, ids.reasoning)),
            ).with("summary"@, JsonV::Array(seq![summary_part(thinking_text)])),
        ]
    } else {
        Seq::empty()
    };
    let second = if full_text.len() > 0 {
        seq![
            JsonV::obj().with("type"@, JsonV::Str("message"@)).with(
                "id"@,
                JsonV::Str(id_of("msg_"@, ids.message)),
            ).with("status"@, JsonV::Str("completed"@)).with("role"@, JsonV::Str("assistant"@)).with(
                "content"@,
                JsonV::Array(seq![output_text_part(full_text)]),
            ),
        ]
    } else {
        Seq::empty()
    };
    first + second + Seq::new(calls.len(), |i: int| output_call(calls[i], ids.calls[i]))
}

fn make_output_call(call: &Json, uuid: &str) -> (r: Json)
    ensures
        r@ == output_call(call@, uuid@),
{
    let arguments = match call.get2("function", "arguments") {
        Some(j) => show(j),
        None => "{}".to_owned(),
    };
    Json::obj().with_str("type", "function_call").with_str("id", responses_id("fc_", uuid).as_str()).with(
        "call_id",
        call.or_null("id"),
    ).with_str("name", name_of_call(call)).with_str("arguments", arguments.as_str()).with_str("status", "completed")
}

/// The output items of a response, with the UUIDs for their identifiers.
pub fn build_responses_output_with(
    full_text: &str,
    thinking_text: &str,
    tool_calls: Option<&Vec<Json>>,
    ids: &OutputIds,
) -> (r: Vec<Json>)
    requires
        ids.calls@.len() == anthropic::calls_in(tool_calls).len(),
    ensures
        json::models(r@) == output_of(full_text@, thinking_text@, anthropic::calls_in(tool_calls), ids@),
{
    let calls = Items::of(tool_calls);
    let mut out = no_json();
    if !thinking_text.is_empty() {
        push_json(
            &mut out,
            Json::obj().with_str("type", "reasoning").with_str(
                "id",
                responses_id("rs_", ids.reasoning.as_str()).as_str(),
            ).with("summary", Json::array(one_json(make_summary_part(thinking_text)))),
        );
    }
    if !full_text.is_empty() {
        push_json(
            &mut out,
            Json::obj().with_str("type", "message").with_str(
                "id",
                responses_id("msg_", ids.message.as_str()).as_str(),
            ).with_str("status", "completed").with_str("role", "assistant").with(
                "content",
                Json::array(one_json(make_output_text_part(full_text))),
            ),
        );
    }
    let ghost all = Seq::new(calls@.len(), |i: int| output_call(calls@[i], ids@.calls[i]));
    let ghost start = json::models(out@);
    let mut i: usize = 0;
    assert(start + all.take(0) =~= start);
    while i < calls.len()
        invariant
            i <= calls@.len(),
            ids.calls@.len() == calls@.len(),
            all == Seq::new(calls@.len(), |i: int| output_call(calls@[i], ids@.calls[i])),
            json::models(out@) == start + all.take(i as int),
        decreases calls@.len() - i,
    {
        push_json(&mut out, make_output_call(calls.at(i), ids.calls[i].as_str()));
        i = i + 1;
        assert(start + all.take(i as int) =~= (start + all.take(i - 1)).push(all[i - 1]));
    }
    assert(all.take(i as int) =~= all);
    assert(json::models(out@) =~= output_of(full_text@, thinking_text@, anthropic::calls_in(tool_calls), ids@));
    out
}

/// The output items of a response; their identifiers are random.
pub fn build_responses_output(full_text: &str, thinking_text: &str, tool_calls: Option<&Vec<Json>>) -> (r: Vec<Json>)
    ensures
        exists|ids: OutputIdsV|
            ids.random(anthropic::calls_in(tool_calls).len()) && json::models(r@) == #[trigger] output_of(
                full_text@,
                thinking_text@,
                anthropic::calls_in(tool_calls),
                ids,
            ),
{
    let ids = OutputIds::random(Items::of(tool_calls).len());
    build_responses_output_with(full_text, thinking_text, tool_calls, &ids)
}

pub open spec fn member_or(j: JsonV, k: Seq<char>, default: JsonV) -> JsonV {
    match j.get(k) {
        Some(v) => v,
        None => default,
    }
}

fn copy_member_or(j: &Json, k: &str, default: Json) -> (r: Json)
    ensures
        r@ == member_or(j@, k@, default@),
{
    match j.get(k) {
        Some(v) => v.clone(),
        None => default,
    }
}

pub open spec fn nonnull_or(j: JsonV, k: Seq<char>, default: JsonV) -> JsonV {
    match j.get_nonnull(k) {
        Some(v) => v,
        None => default,
    }
}

fn copy_nonnull_or(j: &Json, k: &str, default: Json) -> (r: Json)
    ensures
        r@ == nonnull_or(j@, k@, default@),
{
    match j.get_nonnull(k) {
        Some(v) => v.clone(),
        None => default,
    }
}

/// A response that is no stream, completed at a time. `opts` holds the reason for its end and
/// what it repeats of the request.
pub open spec fn response_object(
    response_id: Seq<char>,
    model: Seq<char>,
    created: i64,
    completed: i64,
    full_text: Seq<char>,
    output: Seq<JsonV>,
    usage: Option<JsonV>,
    opts: JsonV,
) -> JsonV {
    let reason = Some(opts.str_or("finishReason"@, ""@));
    JsonV::obj().with("id"@, JsonV::Str(response_id)).with("object"@, JsonV::Str("response"@)).with(
        "created_at"@,
        json::int_json(created as int),
    ).with("status"@, JsonV::Str(status_of(reason))).with("completed_at"@, json::int_json(completed as int)).with(
        "error"@,
        JsonV::Null,
    ).with("incomplete_details"@, incomplete_details(reason)).with(
        "input"@,
        member_or(opts, "input"@, JsonV::Array(Seq::empty())),
    ).with("instructions"@, opts.or_null("instructions"@)).with(
        "max_output_tokens"@,
        opts.or_null("max_output_tokens"@),
    ).with("model"@, JsonV::Str(model)).with("output"@, JsonV::Array(output)).with(
        "output_text"@,
        JsonV::Str(full_text),
    ).with("parallel_tool_calls"@, JsonV::Bool(true)).with("previous_response_id"@, JsonV::Null).with(
        "reasoning"@,
        opts.or_null("reasoning"@),
    ).with("store"@, JsonV::Bool(false)).with(
        "temperature"@,
        nonnull_or(opts, "temperature"@, json::int_json(1)),
    ).with(
        "text"@,
        JsonV::obj().with("format"@, JsonV::obj().with("type"@, JsonV::Str("text"@))),
    ).with("tool_choice"@, member_or(opts, "tool_choice"@, JsonV::Str("auto"@))).with(
        "tools"@,
        member_or(opts, "tools"@, JsonV::Array(Seq::empty())),
    ).with("top_p"@, nonnull_or(opts, "top_p"@, json::int_json(1))).with(
        "truncation"@,
        JsonV::Str("disabled"@),
    ).with("usage"@, responses_usage(usage, 0)).with("user"@, JsonV::Null).with("metadata"@, JsonV::obj())
}

/// A response that is no stream, completed at a time, with the UUIDs for the identifiers of its
/// output items.
pub fn build_responses_object_with(
    response_id: &str,
    model: &str,
    created: i64,
    full_text: &str,
    thinking_text: &str,
    tool_calls: Option<&Vec<Json>>,
    usage: Option<&Json>,
    opts: &Json,
    completed: i64,
    ids: &OutputIds,
) -> (r: Json)
    requires
        ids.calls@.len() == anthropic::calls_in(tool_calls).len(),
    ensures
        r@ == response_object(
            response_id@,
            model@,
            created,
            completed,
            full_text@,
            output_of(full_text@, thinking_text@, anthropic::calls_in(tool_calls), ids@),
            json::opt_json(usage),
            opts@,
        ),
{
    let reason = Some(opts.str_or("finishReason", ""));
    let status = if partial(reason) {
        "incomplete"
    } else {
        "completed"
    };
    let output = build_responses_output_with(full_text, thinking_text, tool_calls, ids);
    Json::obj().with_str("id", response_id).with_str("object", "response").with_int("created_at", created).with_str(
        "status",
        status,
    ).with_int("completed_at", completed).with("error", Json::Null).with(
        "incomplete_details",
        make_incomplete_details(reason),
    ).with("input", copy_member_or(opts, "input", Json::array(no_json()))).with(
        "instructions",
        opts.or_null("instructions"),
    ).with("max_output_tokens", opts.or_null("max_output_tokens")).with_str("model", model).with(
        "output",
        Json::array(output),
    ).with_str("output_text", full_text).with("parallel_tool_calls", Json::Bool(true)).with(
        "previous_response_id",
        Json::Null,
    ).with("reasoning", opts.or_null("reasoning")).with("store", Json::Bool(false)).with(
        "temperature",
        copy_nonnull_or(opts, "temperature", Json::of_int(1)),
    ).with("text", Json::obj().with("format", Json::obj().with_str("type", "text"))).with(
        "tool_choice",
        copy_member_or(opts, "tool_choice", Json::of_str("auto")),
    ).with("tools", copy_member_or(opts, "tools", Json::array(no_json()))).with(
        "top_p",
        copy_nonnull_or(opts, "top_p", Json::of_int(1)),
    ).with_str("truncation", "disabled").with("usage", build_responses_usage(usage, 0)).with("user", Json::Null).with(
        "metadata",
        Json::obj(),
    )
}

/// A response that is no stream, completed now; the identifiers of its output items are random.
pub fn build_responses_object(
    response_id: &str,
    model: &str,
    created: i64,
    full_text: &str,
    thinking_text: &str,
    tool_calls: Option<&Vec<Json>>,
    usage: Option<&Json>,
    opts: &Json,
) -> (r: Json)
    ensures
        exists|completed: i64, ids: OutputIdsV|
            0 <= completed && ids.random(anthropic::calls_in(tool_calls).len()) && r@ == #[trigger] response_object(
                response_id@,
                model@,
                created,
                completed,
                full_text@,
                output_of(full_text@, thinking_text@, anthropic::calls_in(tool_calls), ids),
                json::opt_json(usage),
                opts@,
            ),
{
    let ids = OutputIds::random(Items::of(tool_calls).len());
    build_responses_object_with(
        response_id,
        model,
        created,
        full_text,
        thinking_text,
        tool_calls,
        usage,
        opts,
        now_unix(),
        &ids,
    )
}

// ── pieces of events ───────────────────────────────────────────

fn make_output_text_part(t: &str) -> (r: Json)
    ensures
        r@ == output_text_part(t@),
{
    Json::obj().with_str("type", "output_text").with_str("text", t).with("annotations", Json::array(no_json()))
}

fn make_summary_part(t: &str) -> (r: Json)
    ensures
        r@ == summary_part(t@),
{
    Json::obj().with_str("type", "summary_text").with_str("text", t)
}

fn make_inner_data(item: &Json, index: usize, sub_index: Option<&str>) -> (r: Json)
    ensures
        r@ == inner_data(item@, index as int, text::str_opt(sub_index)),
{
    let d = Json::obj().with("item_id", item.or_null("id")).with("output_index", Json::of_uint(index as u64));
    match sub_index {
        Some(k) => d.with_int(k, 0),
        None => d,
    }
}

fn make_incomplete_details(finish_reason: Option<&str>) -> (r: Json)
    ensures
        r@ == incomplete_details(text::str_opt(finish_reason)),
{
    match finish_reason {
        Some(fr) => if same(fr, "length") {
            Json::obj().with_str("reason", "max_output_tokens")
        } else if same(fr, "pause_turn") {
            Json::obj().with_str("reason", "pause_turn")
        } else {
            Json::Null
        },
        None => Json::Null,
    }
}

fn partial(finish_reason: Option<&str>) -> (r: bool)
    ensures
        r == is_partial(text::str_opt(finish_reason)),
{
    match finish_reason {
        Some(fr) => same(fr, "length") || same(fr, "pause_turn"),
        None => false,
    }
}

fn no_event() -> (r: Vec<String>)
    ensures
        forall|first: u64| text::texts(r@) == #[trigger] texts_from(first, Seq::empty()),
{
    let r = no_texts();
    assert forall|first: u64| text::texts(r@) == #[trigger] texts_from(first, Seq::empty()) by {
        assert(text::texts(r@) =~= texts_from(first, Seq::empty()));
    }
    r
}

impl ResponsesSseTranslator {
    pub open spec fn view(&self) -> ResponsesV {
        ResponsesV {
            model: self.model@,
            response_id: self.response_id@,
            created: self.created,
            seq: self.seq,
            created_sent: self.created_sent,
            current: match self.current {
                Some(c) => Some(c@),
                None => None,
            },
            output_index: self.output_index,
            done_items: json::models(self.done_items@),
            usage: json::owned_json(self.usage),
            text_acc: self.text_acc@,
            finish_reason: text::text_opt(self.finish_reason),
            saw_finish: self.saw_finish,
            last_cc_event: self.last_cc_event@,
            upstream_error: errors::opt_mapped(self.upstream_error),
            input_tokens: self.input_tokens,
            output_tokens: self.output_tokens,
            cached_input_tokens: self.cached_input_tokens,
        }
    }

    pub fn new(model: &str, response_id: &str, created: i64) -> (r: Self)
        ensures
            r@ == ResponsesV::start(model@, response_id@, created),
    {
        let r = ResponsesSseTranslator {
            model: model.to_owned(),
            response_id: response_id.to_owned(),
            created,
            seq: 0,
            created_sent: false,
            current: None,
            output_index: 0,
            done_items: no_json(),
            usage: None,
            text_acc: String::new(),
            finish_reason: None,
            saw_finish: false,
            last_cc_event: String::new(),
            upstream_error: None,
            input_tokens: 0,
            output_tokens: 0,
            cached_input_tokens: 0,
        };
        assert(r.text_acc@ =~= Seq::<char>::empty());
        assert(r.last_cc_event@ =~= Seq::<char>::empty());
        r
    }

    /// Whether the beginning of the response was told.
    pub fn started(&self) -> (r: bool)
        ensures
            r == self@.created_sent,
    {
        self.created_sent
    }

    fn sse(&mut self, ty: &str, data: &Json) -> (r: String)
        ensures
            final(self)@ == (ResponsesV { seq: old(self)@.seq.wrapping_add(1), ..old(self)@ }),
            r@ == numbered_text(old(self)@.seq, ty@, data@),
    {
        let head = Json::obj().with_str("type", ty).with("sequence_number", Json::of_uint(self.seq));
        self.seq = self.seq.wrapping_add(1);
        let payload = match data {
            Json::Object(m) => set_members(head, m),
            _ => head,
        };
        make_sse(ty, &payload)
    }

    fn base(&self, status: &str, output: Vec<Json>) -> (r: Json)
        ensures
            r@ == self@.base_response(status@, json::models(output@)),
    {
        Json::obj().with_str("id", self.response_id.as_str()).with_str("object", "response").with_int(
            "created_at",
            self.created,
        ).with_str("status", status).with("output", Json::array(output)).with_str("output_text", "").with_str(
            "model",
            self.model.as_str(),
        ).with("error", Json::Null).with("incomplete_details", Json::Null).with(
            "parallel_tool_calls",
            Json::Bool(true),
        ).with("previous_response_id", Json::Null).with("store", Json::Bool(false)).with(
            "tools",
            Json::array(no_json()),
        ).with("metadata", Json::obj())
    }

    fn start_response(&mut self) -> (r: Vec<String>)
        ensures
            final(self)@ == old(self)@.begun().next,
            text::texts(r@) == texts_from(old(self)@.seq, old(self)@.begun().events),
    {
        if self.created_sent {
            return no_event();
        }
        let ghost before = self@;
        let data = Json::obj().with("response", self.base("in_progress", no_json()));
        self.created_sent = true;
        let mut out = no_texts();
        let a = self.sse("response.created", &data);
        let b = self.sse("response.in_progress", &data);
        push_text(&mut out, a);
        push_text(&mut out, b);
        proof {
            let es = before.begun().events;
            let e0 = Seq::<EventV>::empty().push(es[0]);
            lemma_texts_push(before.seq, Seq::empty(), es[0]);
            lemma_texts_push(before.seq, e0, es[1]);
            assert(es =~= e0.push(es[1]));
            assert(texts_from(before.seq, Seq::empty()) =~= Seq::<Seq<char>>::empty());
            assert(data@ == response_data(before.base_response("in_progress"@, Seq::empty())));
        }
        out
    }

    fn close_item(&mut self) -> (r: Vec<String>)
        ensures
            final(self)@ == old(self)@.closed().next,
            text::texts(r@) == texts_from(old(self)@.seq, old(self)@.closed().events),
    {
        let mut taken: Option<CurrentItem> = None;
        let ghost before = self@;
        std::mem::swap(&mut self.current, &mut taken);
        let cur = match taken {
            Some(c) => c,
            None => {
                return no_event();
            },
        };
        let ghost c = cur@;
        let ghost es = c.close_events();
        let mut out = no_texts();
        let ghost mut done = Seq::<EventV>::empty();
        assert(texts_from(before.seq, done) =~= Seq::<Seq<char>>::empty());
        let index: usize = cur.index;
        let t = cur.text_buf;
        let item = match cur.kind {
            ItemKind::Message => {
                let d = make_inner_data(&cur.item, index, Some("content_index")).with_str("text", t.as_str()).with(
                    "logprobs",
                    Json::array(no_json()),
                );
                let x = self.sse("response.output_text.done", &d);
                push_text(&mut out, x);
                proof {
                    lemma_texts_push(before.seq, done, es[0]);
                    done = done.push(es[0]);
                }
                let d = make_inner_data(&cur.item, index, Some("content_index")).with(
                    "part",
                    make_output_text_part(t.as_str()),
                );
                let x = self.sse("response.content_part.done", &d);
                push_text(&mut out, x);
                proof {
                    lemma_texts_push(before.seq, done, es[1]);
                    done = done.push(es[1]);
                }
                cur.item.with("content", Json::array(one_json(make_output_text_part(t.as_str()))))
            },
            ItemKind::FunctionCall => {
                let d = make_inner_data(&cur.item, index, None).with("arguments", cur.item.or_null("arguments"));
                let x = self.sse("response.function_call_arguments.done", &d);
                push_text(&mut out, x);
                proof {
                    lemma_texts_push(before.seq, done, es[0]);
                    done = done.push(es[0]);
                }
                cur.item
            },
            ItemKind::Reasoning => {
                let d = make_inner_data(&cur.item, index, Some("summary_index")).with_str("text", t.as_str());
                let x = self.sse("response.reasoning_summary_text.done", &d);
                push_text(&mut out, x);
                proof {
                    lemma_texts_push(before.seq, done, es[0]);
                    done = done.push(es[0]);
                }
                let d = make_inner_data(&cur.item, index, Some("summary_index")).with(
                    "part",
                    make_summary_part(t.as_str()),
                );
                let x = self.sse("response.reasoning_summary_part.done", &d);
                push_text(&mut out, x);
                proof {
                    lemma_texts_push(before.seq, done, es[1]);
                    done = done.push(es[1]);
                }
                cur.item.with("summary", Json::array(one_json(make_summary_part(t.as_str()))))
            },
        }.with_str("status", "completed");
        assert(item@ == c.done_item());
        let d = Json::obj().with("output_index", Json::of_uint(index as u64)).with("item", item.clone());
        let x = self.sse("response.output_item.done", &d);
        push_text(&mut out, x);
        proof {
            lemma_texts_push(before.seq, done, es.last());
            assert(es =~= done.push(es.last()));
        }
        push_json(&mut self.done_items, item);
        out
    }

    fn open_item(&mut self, kind: ItemKind, item: Json) -> (r: Vec<String>)
        ensures
            final(self)@ == old(self)@.opened(kind, item@).next,
            final(self).current is Some,
            text::texts(r@) == texts_from(old(self)@.seq, old(self)@.opened(kind, item@).events),
    {
        let ghost before = self@;
        let mut out = self.close_item();
        let ghost mid = self@;
        let index: usize = self.output_index;
        self.output_index = index.wrapping_add(1);
        let d = Json::obj().with("output_index", Json::of_uint(index as u64)).with("item", item.clone());
        let inner = match kind {
            ItemKind::Message => Some(
                make_inner_data(&item, index, Some("content_index")).with("part", make_output_text_part("")),
            ),
            ItemKind::Reasoning => Some(
                make_inner_data(&item, index, Some("summary_index")).with("part", make_summary_part("")),
            ),
            ItemKind::FunctionCall => None,
        };
        let current = CurrentItem { kind, index, item, text_buf: String::new() };
        assert(current.text_buf@ =~= Seq::<char>::empty());
        let ghost c = current@;
        self.current = Some(current);
        let mut added = no_texts();
        assert(texts_from(mid.seq, Seq::empty()) =~= Seq::<Seq<char>>::empty());
        let ghost es = c.open_events();
        let x = self.sse("response.output_item.added", &d);
        push_text(&mut added, x);
        proof {
            lemma_texts_push(mid.seq, Seq::empty(), es[0]);
        }
        let ghost e0 = Seq::<EventV>::empty().push(es[0]);
        match inner {
            Some(d) => {
                let x = if let ItemKind::Message = kind {
                    self.sse("response.content_part.added", &d)
                } else {
                    self.sse("response.reasoning_summary_part.added", &d)
                };
                push_text(&mut added, x);
                proof {
                    lemma_texts_push(mid.seq, e0, es[1]);
                    assert(es =~= e0.push(es[1]));
                }
            },
            None => {
                assert(es =~= e0);
            },
        }
        append_texts(&mut out, added);
        proof {
            lemma_texts_sum(before.seq, before.closed().events, es);
        }
        out
    }

    fn ensure_item(&mut self, kind: ItemKind, item: Json) -> (r: Vec<String>)
        ensures
            final(self)@ == old(self)@.ensured(kind, item@).next,
            final(self).current is Some,
            text::texts(r@) == texts_from(old(self)@.seq, old(self)@.ensured(kind, item@).events),
    {
        let already = match &self.current {
            Some(c) => c.kind == kind,
            None => false,
        };
        if already {
            no_event()
        } else {
            self.open_item(kind, item)
        }
    }

    /// The beginning, an item of the kind, and a text put in its buffer.
    fn begin_text(&mut self, kind: ItemKind, item: Json, t: &str) -> (r: Vec<String>)
        ensures
            ({
                let a = old(self)@.begun();
                let b = a.followed_by(a.next.ensured(kind, item@));
                &&& final(self)@ == b.next.with_buffered(t@)
                &&& final(self).current is Some
                &&& text::texts(r@) == texts_from(old(self)@.seq, b.events)
                &&& b.next.seq == number_after(old(self)@.seq, b.events.len())
            }),
    {
        let ghost before = self@;
        let mut out = self.start_response();
        let ghost mid = self@;
        let more = self.ensure_item(kind, item);
        append_texts(&mut out, more);
        proof {
            lemma_begun(before);
            lemma_ensured(mid, kind, item@);
            lemma_texts_sum(before.seq, before.begun().events, mid.ensured(kind, item@).events);
        }
        let ghost s = self@;
        let mut taken: Option<CurrentItem> = None;
        std::mem::swap(&mut self.current, &mut taken);
        if let Some(c) = taken {
            let mut buf = c.text_buf;
            buf.append(t);
            self.current = Some(CurrentItem { kind: c.kind, index: c.index, item: c.item, text_buf: buf });
        }
        assert(self@ == s.with_buffered(t@));
        out
    }

    fn inner_of_current(&self, sub_index: Option<&str>) -> (r: Json)
        requires
            self.current is Some,
        ensures
            r@ == inner_data(self@.current->0.item, self@.current->0.index as int, text::str_opt(sub_index)),
    {
        match &self.current {
            Some(c) => make_inner_data(&c.item, c.index, sub_index),
            None => Json::Null,
        }
    }

    fn text(&mut self, t: &str, uuid: &str) -> (r: Vec<String>)
        ensures
            final(self)@ == old(self)@.on_text(t@, uuid@).next,
            text::texts(r@) == texts_from(old(self)@.seq, old(self)@.on_text(t@, uuid@).events),
    {
        if t.is_empty() {
            return no_event();
        }
        let ghost before = self@;
        let item = Json::obj().with_str("type", "message").with_str("id", responses_id("msg_", uuid).as_str()).with_str(
            "status",
            "in_progress",
        ).with_str("role", "assistant").with("content", Json::array(no_json()));
        assert(item@ == message_item(uuid@));
        let mut out = self.begin_text(ItemKind::Message, item, t);
        self.text_acc.append(t);
        let d = self.inner_of_current(Some("content_index")).with_str("delta", t).with(
            "logprobs",
            Json::array(no_json()),
        );
        let x = self.sse("response.output_text.delta", &d);
        push_text(&mut out, x);
        proof {
            let a = before.begun();
            let b = a.followed_by(a.next.ensured(ItemKind::Message, message_item(uuid@)));
            let es = before.on_text(t@, uuid@).events;
            assert(es =~= b.events.push(es.last()));
            lemma_texts_push(before.seq, b.events, es.last());
            lemma_number_one(b.next.seq);
        }
        out
    }

    fn reasoning(&mut self, t: &str, uuid: &str) -> (r: Vec<String>)
        ensures
            final(self)@ == old(self)@.on_reasoning(t@, uuid@).next,
            text::texts(r@) == texts_from(old(self)@.seq, old(self)@.on_reasoning(t@, uuid@).events),
    {
        if t.is_empty() {
            return no_event();
        }
        let ghost before = self@;
        let item = Json::obj().with_str("type", "reasoning").with_str("id", responses_id("rs_", uuid).as_str()).with(
            "summary",
            Json::array(no_json()),
        ).with_str("status", "in_progress");
        assert(item@ == reasoning_item(uuid@));
        let mut out = self.begin_text(ItemKind::Reasoning, item, t);
        let d = self.inner_of_current(Some("summary_index")).with_str("delta", t);
        let x = self.sse("response.reasoning_summary_text.delta", &d);
        push_text(&mut out, x);
        proof {
            let a = before.begun();
            let b = a.followed_by(a.next.ensured(ItemKind::Reasoning, reasoning_item(uuid@)));
            let es = before.on_reasoning(t@, uuid@).events;
            assert(es =~= b.events.push(es.last()));
            lemma_texts_push(before.seq, b.events, es.last());
            lemma_number_one(b.next.seq);
        }
        out
    }

    fn call(&mut self, e: &Json, uuid: &str, call_uuid: &str) -> (r: Vec<String>)
        ensures
            final(self)@ == old(self)@.on_call(e@, uuid@, call_uuid@).next,
            text::texts(r@) == texts_from(old(self)@.seq, old(self)@.on_call(e@, uuid@, call_uuid@).events),
    {
        let ghost before = self@;
        let call_id = match e.get_nonempty("toolCallId") {
            Some(id) => id.to_owned(),
            None => responses_id("call_", call_uuid),
        };
        let item = Json::obj().with_str("type", "function_call").with_str(
            "id",
            responses_id("fc_", uuid).as_str(),
        ).with_str("call_id", call_id.as_str()).with_str("name", e.str_or("toolName", "")).with_str(
            "arguments",
            "",
        ).with_str("status", "in_progress");
        assert(item@ == call_item(e@, uuid@, call_uuid@));
        let mut out = self.start_response();
        let ghost mid = self@;
        let more = self.open_item(ItemKind::FunctionCall, item);
        append_texts(&mut out, more);
        proof {
            lemma_begun(before);
            lemma_opened(mid, ItemKind::FunctionCall, item@);
            lemma_texts_sum(before.seq, before.begun().events, mid.opened(ItemKind::FunctionCall, item@).events);
        }
        let ghost s = self@;
        let args = tool_arguments(e);
        let mut taken: Option<CurrentItem> = None;
        std::mem::swap(&mut self.current, &mut taken);
        if let Some(c) = taken {
            let item = c.item.with_str("arguments", args.as_str());
            self.current = Some(CurrentItem { kind: c.kind, index: c.index, item, text_buf: c.text_buf });
        }
        assert(self@ == s.with_arguments(args@));
        let d = self.inner_of_current(None).with_str("delta", args.as_str());
        let x = self.sse("response.function_call_arguments.delta", &d);
        push_text(&mut out, x);
        proof {
            let a = before.begun();
            let b = a.followed_by(a.next.opened(ItemKind::FunctionCall, item@));
            let es = before.on_call(e@, uuid@, call_uuid@).events;
            assert(es =~= b.events.push(es.last()));
            lemma_texts_push(before.seq, b.events, es.last());
            lemma_number_one(b.next.seq);
        }
        out
    }

    fn finish_step(&mut self, e: &Json)
        ensures
            final(self)@ == old(self)@.on_finish_step(e@),
    {
        self.saw_finish = true;
        if let Some(fr) = e.get_str("finishReason") {
            self.finish_reason = Some(map_finish_reason(fr));
        }
    }

    fn finish_event(&mut self, e: &Json)
        ensures
            final(self)@ == old(self)@.on_finish(e@),
    {
        self.saw_finish = true;
        self.finish_reason = match e.get_str("finishReason") {
            Some(fr) => Some(map_finish_reason(fr)),
            None => None,
        };
        if let Some(u) = get_usage(e) {
            let mut u = u.clone();
            normalize_usage(&mut u);
            self.input_tokens = nullish_i64(u.get("inputTokens"), 0);
            self.output_tokens = nullish_i64(u.get("outputTokens"), 0);
            self.cached_input_tokens = nullish_i64(u.get("cachedInputTokens"), 0);
            self.usage = Some(u);
        }
    }

    /// Takes an event and gives the events for it; the two UUIDs make the identifiers of an item
    /// and of a call that names none.
    pub fn on_event(&mut self, e: &Json, uuid: &str, call_uuid: &str) -> (r: Vec<String>)
        ensures
            final(self)@ == old(self)@.step(e@, uuid@, call_uuid@).next,
            text::texts(r@) == texts_from(old(self)@.seq, old(self)@.step(e@, uuid@, call_uuid@).events),
    {
        let ty = e.str_or("type", "");
        self.last_cc_event = ty.to_owned();
        if same(ty, "text-delta") {
            let t = delta_text(e);
            self.text(t.as_str(), uuid)
        } else if same(ty, "reasoning-delta") {
            let t = event_text(e);
            self.reasoning(t.as_str(), uuid)
        } else if same(ty, "tool-call") {
            self.call(e, uuid, call_uuid)
        } else if same(ty, "finish-step") {
            self.finish_step(e);
            no_event()
        } else if same(ty, "finish") {
            self.finish_event(e);
            no_event()
        } else if same(ty, "error") {
            self.upstream_error = Some(map_cc_event_error(e));
            no_event()
        } else {
            no_event()
        }
    }

    /// Takes a line and gives the events for it.
    pub fn parse_line_with(&mut self, line: &str, uuid: &str, call_uuid: &str) -> (r: Vec<String>)
        ensures
            final(self)@ == old(self)@.line(line@, uuid@, call_uuid@).next,
            text::texts(r@) == texts_from(old(self)@.seq, old(self)@.line(line@, uuid@, call_uuid@).events),
    {
        match read_event(line, true) {
            Some(e) => self.on_event(&e, uuid, call_uuid),
            None => no_event(),
        }
    }

    /// Takes a line and gives the events for it; identifiers are random.
    pub fn parse_line(&mut self, line: &str) -> (r: Vec<String>)
        ensures
            exists|uuid: Seq<char>, call_uuid: Seq<char>|
                util::uuid_text(uuid) && util::uuid_text(call_uuid) && final(self)@ == (#[trigger] old(self)@.line(
                    line@,
                    uuid,
                    call_uuid,
                )).next && text::texts(r@) == texts_from(
                    old(self)@.seq,
                    old(self)@.line(line@, uuid, call_uuid).events,
                ),
    {
        let uuid = random_uuid();
        let call_uuid = random_uuid();
        self.parse_line_with(line, uuid.as_str(), call_uuid.as_str())
    }

    fn reason(&self) -> (r: Option<&str>)
        ensures
            text::str_opt(r) == self@.finish_reason,
    {
        match &self.finish_reason {
            Some(s) => Some(s.as_str()),
            None => None,
        }
    }

    /// Why the answer is not whole, if it is not.
    pub fn incomplete_detail(&self) -> (r: Option<&'static str>)
        ensures
            text::str_opt(r) == self@.incomplete(),
    {
        incomplete_upstream_detail(self.saw_finish, self.reason())
    }

    fn failed_value(&self, message: Json) -> (r: Json)
        ensures
            r@ == self@.failed_response(message@),
    {
        self.base("failed", no_json()).with(
            "error",
            Json::obj().with_str("code", "upstream_error").with("message", message),
        )
    }

    fn final_value(&self) -> (r: Json)
        ensures
            r@ == self@.final_response(),
    {
        let status = if partial(self.reason()) {
            "incomplete"
        } else {
            "completed"
        };
        self.base(status, copy_list(&self.done_items)).with_str("output_text", self.text_acc.as_str()).with(
            "incomplete_details",
            make_incomplete_details(self.reason()),
        ).with("usage", build_responses_usage(self.usage.as_ref(), self.output_tokens))
    }

    /// Ends the stream.
    pub fn finish(&mut self) -> (r: Vec<String>)
        ensures
            final(self)@ == old(self)@.finished().next,
            text::texts(r@) == texts_from(old(self)@.seq, old(self)@.finished().events),
    {
        if !self.created_sent {
            return no_event();
        }
        let ghost before = self@;
        let mut out = self.close_item();
        let ghost mid = self@;
        let x = match self.incomplete_detail() {
            Some(detail) => {
                let m = incomplete_upstream_error(detail);
                let message = match m.body.get2("error", "message") {
                    Some(j) => j.clone(),
                    None => Json::Null,
                };
                let d = Json::obj().with("response", self.failed_value(message));
                self.sse("response.failed", &d)
            },
            None => {
                let d = Json::obj().with("response", self.final_value());
                if partial(self.reason()) {
                    self.sse("response.incomplete", &d)
                } else {
                    self.sse("response.completed", &d)
                }
            },
        };
        push_text(&mut out, x);
        proof {
            lemma_closed(before);
            let es = before.finished().events;
            assert(es =~= before.closed().events.push(es.last()));
            lemma_texts_push(before.seq, before.closed().events, es.last());
            lemma_number_one(mid.seq);
        }
        out
    }

    /// Gives the stream up with a message.
    pub fn fail(&mut self, message: &str) -> (r: Vec<String>)
        ensures
            final(self)@ == old(self)@.failed(message@).next,
            text::texts(r@) == texts_from(old(self)@.seq, old(self)@.failed(message@).events),
    {
        if !self.created_sent {
            return no_event();
        }
        let ghost before = self@;
        let m = if message.is_empty() {
            "Upstream error"
        } else {
            message
        };
        let d = Json::obj().with("response", self.failed_value(Json::of_str(m)));
        let x = self.sse("response.failed", &d);
        let out = one_text(x);
        proof {
            let es = before.failed(message@).events;
            lemma_texts_push(before.seq, Seq::empty(), es[0]);
            assert(es =~= Seq::<EventV>::empty().push(es[0]));
            assert(texts_from(before.seq, Seq::empty()) =~= Seq::<Seq<char>>::empty());
            assert(text::texts(out@) =~= Seq::<Seq<char>>::empty().push(x@));
            lemma_number_one(before.seq);
        }
        out
    }

    /// The event that tells an error.
    pub fn error_event(&mut self, message: &str) -> (r: String)
        ensures
            final(self)@ == old(self)@.gives(seq![EventV::Error { message: message@ }]).next,
            r@ == numbered_text(
                old(self)@.seq,
                "error"@,
                (EventV::Error { message: message@ }).data(),
            ),
    {
        let m = if message.is_empty() {
            "Upstream error"
        } else {
            message
        };
        let d = Json::obj().with("code", Json::Null).with_str("message", m).with("param", Json::Null);
        proof {
            lemma_number_one(self@.seq);
        }
        self.sse("error", &d)
    }
}

proof fn lemma_number_one(first: u64)
    ensures
        number_after(first, 1) == first.wrapping_add(1),
{
    assert(number_after(first, 0) == first);
}

proof fn lemma_begun(s: ResponsesV)
    ensures
        s.begun().next.seq == number_after(s.seq, s.begun().events.len()),
{
}

proof fn lemma_closed(s: ResponsesV)
    ensures
        s.closed().next.seq == number_after(s.seq, s.closed().events.len()),
{
}

proof fn lemma_opened(s: ResponsesV, kind: ItemKind, item: JsonV)
    ensures
        s.opened(kind, item).next.seq == number_after(s.seq, s.opened(kind, item).events.len()),
{
    let c = s.closed();
    let more = s.opened(kind, item).events.len() - c.events.len();
    lemma_number_sum(s.seq, c.events.len(), more as nat);
}

proof fn lemma_ensured(s: ResponsesV, kind: ItemKind, item: JsonV)
    ensures
        s.ensured(kind, item).next.seq == number_after(s.seq, s.ensured(kind, item).events.len()),
{
    lemma_opened(s, kind, item);
}

// ── laws ───────────────────────────────────────────────────────

/// What a client that reads events in their order knows.
pub struct ResponseReaderV {
    /// Whether the response began.
    pub begun: bool,
    /// How many items were added.
    pub added: int,
    /// The item that is open.
    pub open: Option<int>,
    /// Whether the response ended, in whatever way.
    pub ended: bool,
    /// Whether it was told as whole, or as cut short by a limit.
    pub whole: bool,
    /// Whether each event was one that may come at its place.
    pub in_order: bool,
}

impl ResponseReaderV {
    pub open spec fn start() -> ResponseReaderV {
        ResponseReaderV { begun: false, added: 0, open: None, ended: false, whole: false, in_order: true }
    }

    /// An event read. An item is added where none is open, with the next number; what is inside
    /// an item, and its end, name the open item; a whole response ends where no item is open.
    pub open spec fn read(self, e: EventV) -> ResponseReaderV {
        match e {
            EventV::Created { .. } => ResponseReaderV {
                begun: true,
                in_order: self.in_order && !self.begun && !self.ended,
                ..self
            },
            EventV::InProgress { .. } => ResponseReaderV {
                in_order: self.in_order && self.begun && self.added == 0 && !self.ended,
                ..self
            },
            EventV::ItemAdded { index, .. } => ResponseReaderV {
                added: self.added + 1,
                open: Some(index),
                in_order: self.in_order && self.begun && self.open is None && index == self.added && !self.ended,
                ..self
            },
            EventV::Inner { index, .. } => ResponseReaderV {
                in_order: self.in_order && self.open == Some(index),
                ..self
            },
            EventV::ItemDone { index, .. } => ResponseReaderV {
                open: None,
                in_order: self.in_order && self.open == Some(index),
                ..self
            },
            EventV::Completed { .. } | EventV::Incomplete { .. } => ResponseReaderV {
                ended: true,
                whole: true,
                in_order: self.in_order && self.begun && self.open is None && !self.ended,
                ..self
            },
            EventV::Failed { .. } => ResponseReaderV {
                ended: true,
                in_order: self.in_order && self.begun && !self.ended,
                ..self
            },
            EventV::Error { .. } => ResponseReaderV { in_order: self.in_order && !self.ended, ..self },
        }
    }

    pub open spec fn read_all(self, es: Seq<EventV>) -> ResponseReaderV
        decreases es.len(),
    {
        if es.len() == 0 {
            self
        } else {
            self.read_all(es.drop_last()).read(es.last())
        }
    }
}

impl ResponsesV {
    /// What lines do, with two UUIDs for each.
    pub open spec fn lines(
        self,
        lines: Seq<Seq<char>>,
        uuids: Seq<Seq<char>>,
        call_uuids: Seq<Seq<char>>,
    ) -> ResponsesStepV
        decreases lines.len(),
    {
        if lines.len() == 0 {
            self.quiet()
        } else {
            let before = self.lines(lines.drop_last(), uuids, call_uuids);
            let i = lines.len() - 1;
            before.followed_by(before.next.line(lines.last(), uuids[i], call_uuids[i]))
        }
    }

    /// Whether a reader of the events so far knows what the translation knows.
    spec fn known_to(self, r: ResponseReaderV) -> bool {
        r.in_order && !r.ended && !r.whole && r.begun == self.created_sent && r.added == self.output_index && r.open
            == (match self.current {
            Some(c) => Some(c.index as int),
            None => None,
        }) && (!self.created_sent ==> self.output_index == 0)
    }
}

proof fn lemma_read_all_sum(r: ResponseReaderV, a: Seq<EventV>, b: Seq<EventV>)
    ensures
        r.read_all(a + b) == r.read_all(a).read_all(b),
    decreases b.len(),
{
    if b.len() == 0 {
        assert(a + b =~= a);
    } else {
        assert((a + b).drop_last() =~= a + b.drop_last());
        lemma_read_all_sum(r, a, b.drop_last());
    }
}

proof fn lemma_read_one(r: ResponseReaderV, e: EventV)
    ensures
        r.read_all(seq![e]) == r.read(e),
{
    assert(seq![e].drop_last() =~= Seq::<EventV>::empty());
    reveal_with_fuel(ResponseReaderV::read_all, 2);
}

proof fn lemma_read_two(r: ResponseReaderV, a: EventV, b: EventV)
    ensures
        r.read_all(seq![a, b]) == r.read(a).read(b),
{
    assert(seq![a, b].drop_last() =~= seq![a]);
    lemma_read_one(r, a);
}

proof fn lemma_read_begun(t: ResponsesV, r: ResponseReaderV)
    requires
        t.known_to(r),
    ensures
        t.begun().next.known_to(r.read_all(t.begun().events)),
        t.begun().next.created_sent,
        t.begun().next.output_index == t.output_index,
{
    if !t.created_sent {
        let x = t.base_response("in_progress"@, Seq::empty());
        lemma_read_two(r, EventV::Created { response: x }, EventV::InProgress { response: x });
    }
}

proof fn lemma_read_closed(t: ResponsesV, r: ResponseReaderV)
    requires
        t.known_to(r),
    ensures
        t.closed().next.known_to(r.read_all(t.closed().events)),
        t.closed().next.current is None,
        t.closed().next.output_index == t.output_index,
        t.closed().next.created_sent == t.created_sent,
{
    if let Some(c) = t.current {
        let es = c.close_events();
        let inner = es.drop_last();
        match c.kind {
            ItemKind::FunctionCall => {
                assert(inner =~= seq![es[0]]);
                lemma_read_one(r, es[0]);
            },
            _ => {
                assert(inner =~= seq![es[0], es[1]]);
                lemma_read_two(r, es[0], es[1]);
            },
        }
    }
}

proof fn lemma_read_opened(t: ResponsesV, r: ResponseReaderV, kind: ItemKind, item: JsonV)
    requires
        t.known_to(r),
        t.created_sent,
        t.output_index < usize::MAX,
    ensures
        t.opened(kind, item).next.known_to(r.read_all(t.opened(kind, item).events)),
        t.opened(kind, item).next.current is Some,
        t.opened(kind, item).next.created_sent,
        t.opened(kind, item).next.output_index == t.output_index + 1,
{
    lemma_read_closed(t, r);
    let s = t.closed();
    let r1 = r.read_all(s.events);
    let c = CurrentItemV { kind, index: s.next.output_index, item, text_buf: Seq::empty() };
    let es = c.open_events();
    lemma_read_all_sum(r, s.events, es);
    match kind {
        ItemKind::FunctionCall => {
            assert(es =~= seq![es[0]]);
            lemma_read_one(r1, es[0]);
        },
        _ => {
            assert(es =~= seq![es[0], es[1]]);
            lemma_read_two(r1, es[0], es[1]);
        },
    }
}

proof fn lemma_read_ensured(t: ResponsesV, r: ResponseReaderV, kind: ItemKind, item: JsonV)
    requires
        t.known_to(r),
        t.created_sent,
        t.output_index < usize::MAX,
    ensures
        t.ensured(kind, item).next.known_to(r.read_all(t.ensured(kind, item).events)),
        t.ensured(kind, item).next.current is Some,
        t.ensured(kind, item).next.created_sent,
        t.ensured(kind, item).next.output_index <= t.output_index + 1,
{
    if !t.is_open(kind) {
        lemma_read_opened(t, r, kind, item);
    }
}

proof fn lemma_read_step(t: ResponsesV, r: ResponseReaderV, e: JsonV, uuid: Seq<char>, call_uuid: Seq<char>)
    requires
        t.known_to(r),
        t.output_index < usize::MAX,
    ensures
        t.step(e, uuid, call_uuid).next.known_to(r.read_all(t.step(e, uuid, call_uuid).events)),
        t.step(e, uuid, call_uuid).next.output_index <= t.output_index + 1,
{
    let ty = events::type_of(e);
    let s = ResponsesV { last_cc_event: ty, ..t };
    let done = t.step(e, uuid, call_uuid);
    let a = s.begun();
    lemma_read_begun(s, r);
    let ra = r.read_all(a.events);
    if ty == "text-delta"@ {
        let x = events::delta_text_of(e);
        if x.len() > 0 {
            let m = a.next.ensured(ItemKind::Message, message_item(uuid));
            lemma_read_ensured(a.next, ra, ItemKind::Message, message_item(uuid));
            lemma_read_all_sum(r, a.events, m.events);
            let b = a.followed_by(m);
            lemma_read_all_sum(r, b.events, seq![done.events.last()]);
            lemma_read_one(r.read_all(b.events), done.events.last());
            assert(done.events =~= b.events + seq![done.events.last()]);
        }
    } else if ty == "reasoning-delta"@ {
        let x = events::event_text_of(e);
        if x.len() > 0 {
            let m = a.next.ensured(ItemKind::Reasoning, reasoning_item(uuid));
            lemma_read_ensured(a.next, ra, ItemKind::Reasoning, reasoning_item(uuid));
            lemma_read_all_sum(r, a.events, m.events);
            let b = a.followed_by(m);
            lemma_read_all_sum(r, b.events, seq![done.events.last()]);
            lemma_read_one(r.read_all(b.events), done.events.last());
            assert(done.events =~= b.events + seq![done.events.last()]);
        }
    } else if ty == "tool-call"@ {
        let m = a.next.opened(ItemKind::FunctionCall, call_item(e, uuid, call_uuid));
        lemma_read_opened(a.next, ra, ItemKind::FunctionCall, call_item(e, uuid, call_uuid));
        lemma_read_all_sum(r, a.events, m.events);
        let b = a.followed_by(m);
        lemma_read_all_sum(r, b.events, seq![done.events.last()]);
        lemma_read_one(r.read_all(b.events), done.events.last());
        assert(done.events =~= b.events + seq![done.events.last()]);
    }
}

proof fn lemma_read_lines(
    t: ResponsesV,
    r: ResponseReaderV,
    lines: Seq<Seq<char>>,
    uuids: Seq<Seq<char>>,
    call_uuids: Seq<Seq<char>>,
)
    requires
        t.known_to(r),
        t.output_index + lines.len() <= usize::MAX,
    ensures
        t.lines(lines, uuids, call_uuids).next.known_to(r.read_all(t.lines(lines, uuids, call_uuids).events)),
        t.lines(lines, uuids, call_uuids).next.output_index <= t.output_index + lines.len(),
    decreases lines.len(),
{
    if lines.len() > 0 {
        lemma_read_lines(t, r, lines.drop_last(), uuids, call_uuids);
        let before = t.lines(lines.drop_last(), uuids, call_uuids);
        let i = lines.len() - 1;
        let last = before.next.line(lines.last(), uuids[i], call_uuids[i]);
        lemma_read_all_sum(r, before.events, last.events);
        if let Some(e) = events::event_in(lines.last(), true) {
            lemma_read_step(before.next, r.read_all(before.events), e, uuids[i], call_uuids[i]);
        }
    }
}

/// Whatever the upstream says, the client reads events that are in order: the response begins
/// once, items are numbered from zero without a gap, one is added only where the one before it is
/// done, and at the end a response that began is ended once. It is told as whole, or as cut short
/// by a limit, exactly where the upstream told its end and no connection failed; then no item is
/// left open.
pub proof fn events_are_in_order(
    model: Seq<char>,
    response_id: Seq<char>,
    created: i64,
    lines: Seq<Seq<char>>,
    uuids: Seq<Seq<char>>,
    call_uuids: Seq<Seq<char>>,
)
    requires
        lines.len() <= usize::MAX,
    ensures
        ({
            let s = ResponsesV::start(model, response_id, created).lines(lines, uuids, call_uuids);
            let read = ResponseReaderV::start().read_all(s.events);
            let end = ResponseReaderV::start().read_all(s.events + s.next.finished().events);
            &&& read.in_order && !read.ended
            &&& read.begun == s.next.created_sent
            &&& read.added == s.next.output_index
            &&& end.in_order
            &&& end.open is None
            &&& end.ended == s.next.created_sent
            &&& end.whole == (s.next.created_sent && s.next.incomplete() is None)
        }),
{
    let t = ResponsesV::start(model, response_id, created);
    let s = t.lines(lines, uuids, call_uuids);
    lemma_read_lines(t, ResponseReaderV::start(), lines, uuids, call_uuids);
    let read = ResponseReaderV::start().read_all(s.events);
    let f = s.next.finished();
    lemma_read_all_sum(ResponseReaderV::start(), s.events, f.events);
    if s.next.created_sent {
        lemma_read_closed(s.next, read);
        let c = s.next.closed();
        lemma_read_all_sum(read, c.events, seq![c.next.last_event()]);
        lemma_read_one(read.read_all(c.events), c.next.last_event());
        assert(f.events =~= c.events + seq![c.next.last_event()]);
    } else {
        assert(s.next.current is None) by {
            nothing_precedes_the_beginning(t, lines, uuids, call_uuids);
        }
    }
}

/// Nothing is given, and nothing is open, before the response began.
pub proof fn nothing_precedes_the_beginning(t: ResponsesV, lines: Seq<Seq<char>>, uuids: Seq<Seq<char>>, call_uuids: Seq<Seq<char>>)
    requires
        !t.created_sent ==> t.current is None,
    ensures
        !t.lines(lines, uuids, call_uuids).next.created_sent ==> t.lines(lines, uuids, call_uuids).next.current is None
            && t.lines(lines, uuids, call_uuids).events.len() == 0,
        t.created_sent ==> t.lines(lines, uuids, call_uuids).next.created_sent,
    decreases lines.len(),
{
    if lines.len() > 0 {
        nothing_precedes_the_beginning(t, lines.drop_last(), uuids, call_uuids);
    }
}

proof fn lemma_gives(a: ResponsesStepV, first: u64, b: ResponsesStepV)
    requires
        a.next.seq == number_after(first, a.events.len()),
        b.next.seq == number_after(a.next.seq, b.events.len()),
    ensures
        a.followed_by(b).next.seq == number_after(first, a.followed_by(b).events.len()),
{
    lemma_number_sum(first, a.events.len(), b.events.len());
}

proof fn lemma_number_opened(t: ResponsesV, kind: ItemKind, item: JsonV)
    ensures
        t.opened(kind, item).next.seq == number_after(t.seq, t.opened(kind, item).events.len()),
{
    let s = t.closed();
    let c = CurrentItemV { kind, index: s.next.output_index, item, text_buf: Seq::empty() };
    lemma_gives(
        s,
        t.seq,
        ResponsesV {
            current: Some(c),
            output_index: s.next.output_index.wrapping_add(1),
            ..s.next
        }.gives(c.open_events()),
    );
}

proof fn lemma_number_step(t: ResponsesV, e: JsonV, uuid: Seq<char>, call_uuid: Seq<char>)
    ensures
        t.step(e, uuid, call_uuid).next.seq == number_after(t.seq, t.step(e, uuid, call_uuid).events.len()),
{
    let ty = events::type_of(e);
    let s = ResponsesV { last_cc_event: ty, ..t };
    let a = s.begun();
    let done = t.step(e, uuid, call_uuid);
    if ty == "text-delta"@ {
        if events::delta_text_of(e).len() > 0 {
            let m = a.next.ensured(ItemKind::Message, message_item(uuid));
            lemma_number_opened(a.next, ItemKind::Message, message_item(uuid));
            lemma_gives(a, t.seq, m);
            lemma_number_last(a.followed_by(m), t.seq, done);
        }
    } else if ty == "reasoning-delta"@ {
        if events::event_text_of(e).len() > 0 {
            let m = a.next.ensured(ItemKind::Reasoning, reasoning_item(uuid));
            lemma_number_opened(a.next, ItemKind::Reasoning, reasoning_item(uuid));
            lemma_gives(a, t.seq, m);
            lemma_number_last(a.followed_by(m), t.seq, done);
        }
    } else if ty == "tool-call"@ {
        let m = a.next.opened(ItemKind::FunctionCall, call_item(e, uuid, call_uuid));
        lemma_number_opened(a.next, ItemKind::FunctionCall, call_item(e, uuid, call_uuid));
        lemma_gives(a, t.seq, m);
        lemma_number_last(a.followed_by(m), t.seq, done);
    }
}

proof fn lemma_number_last(b: ResponsesStepV, first: u64, done: ResponsesStepV)
    requires
        b.next.seq == number_after(first, b.events.len()),
        done.events.len() == b.events.len() + 1,
        done.next.seq == number_after(b.next.seq, 1),
    ensures
        done.next.seq == number_after(first, done.events.len()),
{
    lemma_number_sum(first, b.events.len(), 1);
}

/// The next number is always that behind the last event, so that the events of a stream are
/// numbered one by one.
pub proof fn numbers_have_no_gap(
    t: ResponsesV,
    lines: Seq<Seq<char>>,
    uuids: Seq<Seq<char>>,
    call_uuids: Seq<Seq<char>>,
)
    ensures
        t.lines(lines, uuids, call_uuids).next.seq == number_after(
            t.seq,
            t.lines(lines, uuids, call_uuids).events.len(),
        ),
    decreases lines.len(),
{
    if lines.len() > 0 {
        numbers_have_no_gap(t, lines.drop_last(), uuids, call_uuids);
        let before = t.lines(lines.drop_last(), uuids, call_uuids);
        let i = lines.len() - 1;
        let last = before.next.line(lines.last(), uuids[i], call_uuids[i]);
        if let Some(e) = events::event_in(lines.last(), true) {
            lemma_number_step(before.next, e, uuids[i], call_uuids[i]);
        }
        lemma_gives(before, t.seq, last);
    }
}

/// Counted from zero, the number of an event is how many came before it.
pub proof fn numbers_count_from_zero(n: u64)
    ensures
        number_after(0, n as nat) == n,
    decreases n,
{
    if n > 0 {
        numbers_count_from_zero((n - 1) as u64);
    }
}

/// Events given one after the other are numbered as if they were given at once.
pub proof fn numbered_texts_add_up(first: u64, a: Seq<EventV>, b: Seq<EventV>)
    ensures
        texts_from(first, a + b) == texts_from(first, a) + texts_from(number_after(first, a.len()), b),
{
    lemma_texts_sum(first, a, b);
}

/// A call on a translation.
pub enum CallV {
    Line { line: Seq<char>, uuid: Seq<char>, call_uuid: Seq<char> },
    Finish,
    Fail { message: Seq<char> },
}

impl ResponsesV {
    pub open spec fn call(self, c: CallV) -> ResponsesStepV {
        match c {
            CallV::Line { line, uuid, call_uuid } => self.line(line, uuid, call_uuid),
            CallV::Finish => self.finished(),
            CallV::Fail { message } => self.failed(message),
        }
    }

    /// What calls do, in whatever order they come.
    pub open spec fn calls(self, cs: Seq<CallV>) -> ResponsesStepV
        decreases cs.len(),
    {
        if cs.len() == 0 {
            self.quiet()
        } else {
            let before = self.calls(cs.drop_last());
            before.followed_by(before.next.call(cs.last()))
        }
    }

    /// The texts that calls give, one call's behind the other's.
    pub open spec fn sent(self, cs: Seq<CallV>) -> Seq<Seq<char>>
        decreases cs.len(),
    {
        if cs.len() == 0 {
            Seq::empty()
        } else {
            let before = self.calls(cs.drop_last()).next;
            self.sent(cs.drop_last()) + texts_from(before.seq, before.call(cs.last()).events)
        }
    }
}

/// Whether the data of an event leave its type and its number as they are.
spec fn is_plain(e: EventV) -> bool {
    e.data() is Object && e.data().get("type"@) is None && e.data().get("sequence_number"@) is None
}

/// Whether an event is not one of the two that open a response.
pub open spec fn is_later(e: EventV) -> bool {
    e.name() != "response.created"@ && e.name() != "response.in_progress"@
}

spec fn all_later(es: Seq<EventV>) -> bool {
    forall|i: int| 0 <= i < es.len() ==> is_plain(#[trigger] es[i]) && is_later(es[i])
}

spec fn opens_once(es: Seq<EventV>) -> bool {
    &&& es.len() >= 2
    &&& es[0].name() == "response.created"@ && is_plain(es[0])
    &&& es[1].name() == "response.in_progress"@ && is_plain(es[1])
    &&& forall|i: int| 2 <= i < es.len() ==> is_plain(#[trigger] es[i]) && is_later(es[i])
}

proof fn lemma_inner_plain(item: JsonV, index: int, k: Seq<char>, v: JsonV)
    requires
        k != "type"@,
        k != "sequence_number"@,
    ensures
        ({
            let a = inner_data(item, index, None).with(k, v);
            let b = inner_data(item, index, Some("content_index"@)).with(k, v);
            let c = inner_data(item, index, Some("summary_index"@)).with(k, v);
            &&& a is Object && a.get("type"@) is None && a.get("sequence_number"@) is None
            &&& b is Object && b.get("type"@) is None && b.get("sequence_number"@) is None
            &&& c is Object && c.get("type"@) is None && c.get("sequence_number"@) is None
        }),
{
    broadcast use json::group_members;

    reveal_strlit("type");
    reveal_strlit("sequence_number");
    reveal_strlit("item_id");
    reveal_strlit("output_index");
    reveal_strlit("content_index");
    reveal_strlit("summary_index");
    assert("type"@.len() == 4 && "sequence_number"@.len() == 15 && "item_id"@.len() == 7 && "output_index"@.len() == 12);
    assert("content_index"@.len() == 13 && "summary_index"@.len() == 13);
}

proof fn lemma_data_names()
    ensures
        "text"@ != "type"@,
        "text"@ != "sequence_number"@,
        "logprobs"@ != "type"@,
        "logprobs"@ != "sequence_number"@,
        "part"@ != "type"@,
        "part"@ != "sequence_number"@,
        "arguments"@ != "type"@,
        "arguments"@ != "sequence_number"@,
        "delta"@ != "type"@,
        "delta"@ != "sequence_number"@,
{
    reveal_strlit("type");
    reveal_strlit("sequence_number");
    reveal_strlit("text");
    reveal_strlit("logprobs");
    reveal_strlit("part");
    reveal_strlit("arguments");
    reveal_strlit("delta");
    assert("type"@[1] == 'y' && "text"@[1] == 'e' && "part"@[1] == 'a');
    assert("type"@.len() == 4 && "text"@.len() == 4 && "part"@.len() == 4 && "sequence_number"@.len() == 15);
    assert("logprobs"@.len() == 8 && "arguments"@.len() == 9 && "delta"@.len() == 5);
}

proof fn lemma_inner_names()
    ensures
        "response.output_text.done"@.len() == 25,
        "response.content_part.done"@.len() == 26,
        "response.content_part.done"@[9] == 'c',
        "response.function_call_arguments.done"@.len() == 37,
        "response.reasoning_summary_text.done"@.len() == 36,
        "response.reasoning_summary_part.done"@.len() == 36,
        "response.content_part.added"@.len() == 27,
        "response.reasoning_summary_part.added"@.len() == 37,
        "response.output_text.delta"@.len() == 26,
        "response.output_text.delta"@[9] == 'o',
        "response.reasoning_summary_text.delta"@.len() == 37,
        "response.function_call_arguments.delta"@.len() == 38,
        "response.created"@.len() == 16,
        "response.in_progress"@.len() == 20,
{
    reveal_strlit("response.output_text.done");
    reveal_strlit("response.content_part.done");
    reveal_strlit("response.function_call_arguments.done");
    reveal_strlit("response.reasoning_summary_text.done");
    reveal_strlit("response.reasoning_summary_part.done");
    reveal_strlit("response.content_part.added");
    reveal_strlit("response.reasoning_summary_part.added");
    reveal_strlit("response.output_text.delta");
    reveal_strlit("response.reasoning_summary_text.delta");
    reveal_strlit("response.function_call_arguments.delta");
    reveal_strlit("response.created");
    reveal_strlit("response.in_progress");
}

proof fn lemma_item_later(index: int, item: JsonV)
    ensures
        is_plain(EventV::ItemAdded { index, item }),
        is_later(EventV::ItemAdded { index, item }),
        is_plain(EventV::ItemDone { index, item }),
        is_later(EventV::ItemDone { index, item }),
{
    broadcast use json::group_members;

    lemma_inner_names();
    reveal_strlit("type");
    reveal_strlit("sequence_number");
    reveal_strlit("output_index");
    reveal_strlit("item");
    reveal_strlit("response.output_item.added");
    reveal_strlit("response.output_item.done");
    assert("type"@[0] == 't' && "item"@[0] == 'i');
    assert("type"@.len() == 4 && "item"@.len() == 4 && "sequence_number"@.len() == 15 && "output_index"@.len() == 12);
    assert("response.output_item.added"@.len() == 26 && "response.output_item.done"@.len() == 25);
}

proof fn lemma_response_plain(response: JsonV)
    ensures
        is_plain(EventV::Created { response }),
        is_plain(EventV::InProgress { response }),
        is_plain(EventV::Completed { response }),
        is_later(EventV::Completed { response }),
        is_plain(EventV::Incomplete { response }),
        is_later(EventV::Incomplete { response }),
        is_plain(EventV::Failed { response }),
        is_later(EventV::Failed { response }),
{
    broadcast use json::group_members;

    lemma_inner_names();
    reveal_strlit("type");
    reveal_strlit("sequence_number");
    reveal_strlit("response");
    reveal_strlit("response.completed");
    reveal_strlit("response.incomplete");
    reveal_strlit("response.failed");
    assert("type"@.len() == 4 && "sequence_number"@.len() == 15 && "response"@.len() == 8);
    assert("response.completed"@.len() == 18 && "response.incomplete"@.len() == 19 && "response.failed"@.len() == 15);
}

proof fn lemma_close_later(c: CurrentItemV)
    ensures
        all_later(c.close_events()),
{
    broadcast use json::group_members;

    let i = c.index as int;
    lemma_data_names();
    lemma_inner_names();
    lemma_inner_plain(c.item, i, "text"@, JsonV::Str(c.text_buf));
    lemma_inner_plain(c.item, i, "part"@, output_text_part(c.text_buf));
    lemma_inner_plain(c.item, i, "part"@, summary_part(c.text_buf));
    lemma_inner_plain(c.item, i, "arguments"@, c.item.or_null("arguments"@));
    lemma_item_later(i, c.done_item());
}

proof fn lemma_open_later(c: CurrentItemV)
    ensures
        all_later(c.open_events()),
{
    let i = c.index as int;
    lemma_data_names();
    lemma_inner_names();
    lemma_inner_plain(c.item, i, "part"@, output_text_part(""@));
    lemma_inner_plain(c.item, i, "part"@, summary_part(""@));
    lemma_item_later(i, c.item);
}

proof fn lemma_delta_later(c: CurrentItemV, t: Seq<char>)
    ensures
        ({
            let i = c.index as int;
            let x = c.inner(
                "response.output_text.delta"@,
                inner_data(c.item, i, Some("content_index"@)).with("delta"@, JsonV::Str(t)).with(
                    "logprobs"@,
                    JsonV::Array(Seq::empty()),
                ),
            );
            let y = c.inner(
                "response.reasoning_summary_text.delta"@,
                inner_data(c.item, i, Some("summary_index"@)).with("delta"@, JsonV::Str(t)),
            );
            let z = c.inner(
                "response.function_call_arguments.delta"@,
                inner_data(c.item, i, None).with("delta"@, JsonV::Str(t)),
            );
            &&& is_plain(x) && is_later(x)
            &&& is_plain(y) && is_later(y)
            &&& is_plain(z) && is_later(z)
        }),
{
    broadcast use json::group_members;

    lemma_data_names();
    lemma_inner_names();
    lemma_inner_plain(c.item, c.index as int, "delta"@, JsonV::Str(t));
}

proof fn lemma_later_opened(t: ResponsesV, kind: ItemKind, item: JsonV)
    ensures
        all_later(t.opened(kind, item).events),
        all_later(t.ensured(kind, item).events),
        t.opened(kind, item).next.created_sent == t.created_sent,
        t.ensured(kind, item).next.created_sent == t.created_sent,
{
    let s = t.closed();
    let c = CurrentItemV { kind, index: s.next.output_index, item, text_buf: Seq::empty() };
    lemma_open_later(c);
    if let Some(d) = t.current {
        lemma_close_later(d);
    }
    assert(t.opened(kind, item).events =~= s.events + c.open_events());
}

/// Whether what something gives is right behind the events before it.
spec fn goes_on(t: ResponsesV, s: ResponsesStepV) -> bool {
    if t.created_sent {
        s.next.created_sent && all_later(s.events)
    } else if s.next.created_sent {
        opens_once(s.events)
    } else {
        s.events.len() == 0
    }
}

proof fn lemma_goes_on(t: ResponsesV, a: ResponsesStepV, more: Seq<EventV>, done: ResponsesStepV)
    requires
        a == t.begun(),
        all_later(more),
        done.events == a.events + more,
        done.next.created_sent,
    ensures
        goes_on(t, done),
{
    lemma_response_plain(t.base_response("in_progress"@, Seq::empty()));
    if !t.created_sent {
        assert forall|i: int| 2 <= i < done.events.len() implies is_plain(#[trigger] done.events[i]) && is_later(
            done.events[i],
        ) by {
            assert(done.events[i] == more[i - 2]);
        }
    } else {
        assert(done.events =~= more);
    }
}

proof fn lemma_step_goes_on(t: ResponsesV, e: JsonV, uuid: Seq<char>, call_uuid: Seq<char>)
    ensures
        goes_on(t, t.step(e, uuid, call_uuid)),
{
    let ty = events::type_of(e);
    let s = ResponsesV { last_cc_event: ty, ..t };
    let a = s.begun();
    let done = t.step(e, uuid, call_uuid);
    let last = seq![done.events.last()];
    if ty == "text-delta"@ {
        let x = events::delta_text_of(e);
        if x.len() > 0 {
            let m = a.next.ensured(ItemKind::Message, message_item(uuid));
            lemma_later_opened(a.next, ItemKind::Message, message_item(uuid));
            lemma_delta_later(m.next.with_buffered(x).current->0, x);
            assert(done.events =~= a.events + (m.events + last));
            lemma_goes_on(s, a, m.events + last, done);
        }
    } else if ty == "reasoning-delta"@ {
        let x = events::event_text_of(e);
        if x.len() > 0 {
            let m = a.next.ensured(ItemKind::Reasoning, reasoning_item(uuid));
            lemma_later_opened(a.next, ItemKind::Reasoning, reasoning_item(uuid));
            lemma_delta_later(m.next.with_buffered(x).current->0, x);
            assert(done.events =~= a.events + (m.events + last));
            lemma_goes_on(s, a, m.events + last, done);
        }
    } else if ty == "tool-call"@ {
        let x = events::arguments_of(e);
        let m = a.next.opened(ItemKind::FunctionCall, call_item(e, uuid, call_uuid));
        lemma_later_opened(a.next, ItemKind::FunctionCall, call_item(e, uuid, call_uuid));
        lemma_delta_later(m.next.with_arguments(x).current->0, x);
        assert(done.events =~= a.events + (m.events + last));
        lemma_goes_on(s, a, m.events + last, done);
    }
}

proof fn lemma_call_goes_on(t: ResponsesV, c: CallV)
    ensures
        goes_on(t, t.call(c)),
        t.call(c).next.seq == number_after(t.seq, t.call(c).events.len()),
{
    match c {
        CallV::Line { line, uuid, call_uuid } => {
            if let Some(e) = events::event_in(line, true) {
                lemma_step_goes_on(t, e, uuid, call_uuid);
                lemma_number_step(t, e, uuid, call_uuid);
            }
        },
        CallV::Finish => {
            if t.created_sent {
                let a = t.closed();
                let more = a.next.gives(seq![a.next.last_event()]);
                if let Some(i) = t.current {
                    lemma_close_later(i);
                }
                match a.next.last_event() {
                    EventV::Failed { response } => lemma_response_plain(response),
                    EventV::Incomplete { response } => lemma_response_plain(response),
                    EventV::Completed { response } => lemma_response_plain(response),
                    _ => {},
                }
                lemma_closed(t);
                lemma_gives(a, t.seq, more);
            }
        },
        CallV::Fail { message } => {
            lemma_response_plain(t.failed_response(JsonV::Str(message_or_default(message))));
        },
    }
}

proof fn lemma_calls_go_on(t: ResponsesV, cs: Seq<CallV>)
    requires
        !t.created_sent,
    ensures
        goes_on(t, t.calls(cs)),
        t.calls(cs).next.seq == number_after(t.seq, t.calls(cs).events.len()),
        t.sent(cs) == texts_from(t.seq, t.calls(cs).events),
    decreases cs.len(),
{
    if cs.len() > 0 {
        lemma_calls_go_on(t, cs.drop_last());
        let before = t.calls(cs.drop_last());
        let last = before.next.call(cs.last());
        lemma_call_goes_on(before.next, cs.last());
        lemma_gives(before, t.seq, last);
        lemma_texts_sum(t.seq, before.events, last.events);
        let all = t.calls(cs).events;
        assert(all == before.events + last.events);
        if before.next.created_sent {
            assert forall|i: int| 2 <= i < all.len() implies is_plain(#[trigger] all[i]) && is_later(all[i]) by {
                if i < before.events.len() {
                    assert(all[i] == before.events[i]);
                } else {
                    assert(all[i] == last.events[i - before.events.len()]);
                }
            }
        } else {
            assert(all =~= last.events);
        }
    } else {
        assert(t.sent(cs) =~= texts_from(t.seq, t.calls(cs).events));
    }
}

proof fn lemma_members_kept(j: JsonV, es: json::Members, i: nat, k: Seq<char>)
    requires
        j is Object,
        i <= es.len(),
        json::lookup(es, k) is None,
    ensures
        http_util::with_members(j, es, i) is Object,
        http_util::with_members(j, es, i).get(k) == j.get(k),
    decreases i,
{
    broadcast use json::group_members;

    if i > 0 {
        lemma_members_kept(j, es, (i - 1) as nat, k);
        json::lemma_absent(es, k);
        assert(es[i - 1].0 != k);
    }
}

proof fn lemma_payload(number: u64, e: EventV)
    requires
        is_plain(e),
    ensures
        payload(number, e.name(), e.data()).get("type"@) == Some(JsonV::Str(e.name())),
        payload(number, e.name(), e.data()).get("sequence_number"@) == Some(json::int_json(number as int)),
{
    broadcast use json::group_members;

    reveal_strlit("type");
    reveal_strlit("sequence_number");
    assert("type"@.len() == 4 && "sequence_number"@.len() == 15);
    let head = JsonV::obj().with("type"@, JsonV::Str(e.name())).with("sequence_number"@, json::int_json(number as int));
    assert(head.get("type"@) == Some(JsonV::Str(e.name())));
    if let JsonV::Object(es) = e.data() {
        lemma_members_kept(head, es, es.len(), "type"@);
        lemma_members_kept(head, es, es.len(), "sequence_number"@);
    }
}

/// Whether a text is an event with the number `k`.
pub open spec fn is_numbered(t: Seq<char>, e: EventV, k: int) -> bool {
    let p = payload(k as u64, e.name(), e.data());
    &&& t == anthropic::sse_text(e.name(), p)
    &&& p.get("type"@) == Some(JsonV::Str(e.name()))
    &&& p.get("sequence_number"@) == Some(json::int_json(k))
}

/// In whatever order lines, ends and failures come, the events that a new translation gives are
/// numbered from zero without a gap, as far as the numbers go; the first two open the response,
/// no other does, and the response has begun exactly where an event was given.
pub proof fn streams_open_once(model: Seq<char>, response_id: Seq<char>, created: i64, cs: Seq<CallV>)
    ensures
        ({
            let t = ResponsesV::start(model, response_id, created);
            let s = t.calls(cs);
            &&& t.sent(cs).len() == s.events.len()
            &&& forall|k: int|
                0 <= k < s.events.len() && k <= u64::MAX ==> is_numbered(#[trigger] t.sent(cs)[k], s.events[k], k)
            &&& s.next.created_sent <==> s.events.len() > 0
            &&& s.events.len() > 0 ==> s.events.len() >= 2 && s.events[0].name() == "response.created"@
                && s.events[1].name() == "response.in_progress"@
            &&& forall|k: int| 2 <= k < s.events.len() ==> is_later(#[trigger] s.events[k])
        }),
{
    let t = ResponsesV::start(model, response_id, created);
    let s = t.calls(cs);
    lemma_calls_go_on(t, cs);
    assert forall|k: int| 0 <= k < s.events.len() && k <= u64::MAX implies is_numbered(
        #[trigger] t.sent(cs)[k],
        s.events[k],
        k,
    ) by {
        numbers_count_from_zero(k as u64);
        lemma_payload(k as u64, s.events[k]);
    }
}

/// What a client that gathers the output knows.
pub struct CollectorV {
    /// The pieces of text, put together.
    pub text: Seq<char>,
    /// The items that are done.
    pub items: Seq<JsonV>,
    /// Whether each item was told done with its place among them.
    pub in_place: bool,
}

impl CollectorV {
    pub open spec fn start() -> CollectorV {
        CollectorV { text: Seq::empty(), items: Seq::empty(), in_place: true }
    }

    pub open spec fn collect(self, e: EventV) -> CollectorV {
        match e {
            EventV::Inner { name, data, .. } => if name == "response.output_text.delta"@ {
                CollectorV { text: self.text + data.str_or("delta"@, ""@), ..self }
            } else {
                self
            },
            EventV::ItemDone { index, item } => CollectorV {
                items: self.items.push(item),
                in_place: self.in_place && index == self.items.len(),
                ..self
            },
            _ => self,
        }
    }

    pub open spec fn collect_all(self, es: Seq<EventV>) -> CollectorV
        decreases es.len(),
    {
        if es.len() == 0 {
            self
        } else {
            self.collect_all(es.drop_last()).collect(es.last())
        }
    }
}

/// The text in an upstream line.
pub open spec fn text_in(line: Seq<char>) -> Seq<char> {
    match events::event_in(line, true) {
        Some(e) => if events::type_of(e) == "text-delta"@ {
            events::delta_text_of(e)
        } else {
            Seq::empty()
        },
        None => Seq::empty(),
    }
}

/// The text in upstream lines, put together.
pub open spec fn text_of_lines(lines: Seq<Seq<char>>) -> Seq<char>
    decreases lines.len(),
{
    if lines.len() == 0 {
        Seq::empty()
    } else {
        text_of_lines(lines.drop_last()) + text_in(lines.last())
    }
}

/// Whether an upstream line tells the end of a step or of the stream.
pub open spec fn tells_end(line: Seq<char>) -> bool {
    events::event_in(line, true) matches Some(e) && (events::type_of(e) == "finish-step"@ || events::type_of(e)
        == "finish"@)
}

impl ResponsesV {
    /// Whether a collector of the events so far holds what the translation keeps.
    spec fn collected_by(self, c: CollectorV) -> bool {
        &&& c.in_place
        &&& c.text == self.text_acc
        &&& c.items == self.done_items
        &&& match self.current {
            Some(i) => i.index == self.done_items.len() && self.output_index == self.done_items.len() + 1,
            None => self.output_index == self.done_items.len(),
        }
    }
}

proof fn lemma_collect_sum(c: CollectorV, a: Seq<EventV>, b: Seq<EventV>)
    ensures
        c.collect_all(a + b) == c.collect_all(a).collect_all(b),
    decreases b.len(),
{
    if b.len() == 0 {
        assert(a + b =~= a);
    } else {
        assert((a + b).drop_last() =~= a + b.drop_last());
        lemma_collect_sum(c, a, b.drop_last());
    }
}

proof fn lemma_collect_one(c: CollectorV, e: EventV)
    ensures
        c.collect_all(seq![e]) == c.collect(e),
{
    assert(seq![e].drop_last() =~= Seq::<EventV>::empty());
    reveal_with_fuel(CollectorV::collect_all, 2);
}

proof fn lemma_collect_two(c: CollectorV, a: EventV, b: EventV)
    ensures
        c.collect_all(seq![a, b]) == c.collect(a).collect(b),
{
    assert(seq![a, b].drop_last() =~= seq![a]);
    lemma_collect_one(c, a);
}

proof fn lemma_collect_begun(t: ResponsesV, c: CollectorV)
    requires
        t.collected_by(c),
    ensures
        t.begun().next.collected_by(c.collect_all(t.begun().events)),
        t.begun().next.output_index == t.output_index,
{
    if !t.created_sent {
        let x = t.base_response("in_progress"@, Seq::empty());
        lemma_collect_two(c, EventV::Created { response: x }, EventV::InProgress { response: x });
    }
}

proof fn lemma_collect_closed(t: ResponsesV, c: CollectorV)
    requires
        t.collected_by(c),
    ensures
        t.closed().next.collected_by(c.collect_all(t.closed().events)),
        t.closed().next.current is None,
        t.closed().next.output_index == t.output_index,
{
    lemma_inner_names();
    if let Some(i) = t.current {
        let es = i.close_events();
        let inner = es.drop_last();
        match i.kind {
            ItemKind::FunctionCall => {
                assert(inner =~= seq![es[0]]);
                lemma_collect_one(c, es[0]);
            },
            _ => {
                assert(inner =~= seq![es[0], es[1]]);
                lemma_collect_two(c, es[0], es[1]);
            },
        }
    }
}

proof fn lemma_collect_opened(t: ResponsesV, c: CollectorV, kind: ItemKind, item: JsonV)
    requires
        t.collected_by(c),
        t.output_index < usize::MAX,
    ensures
        t.opened(kind, item).next.collected_by(c.collect_all(t.opened(kind, item).events)),
        t.opened(kind, item).next.current is Some,
        t.opened(kind, item).next.output_index == t.output_index + 1,
{
    lemma_inner_names();
    lemma_collect_closed(t, c);
    let s = t.closed();
    let c1 = c.collect_all(s.events);
    let i = CurrentItemV { kind, index: s.next.output_index, item, text_buf: Seq::empty() };
    let es = i.open_events();
    lemma_collect_sum(c, s.events, es);
    match kind {
        ItemKind::FunctionCall => {
            assert(es =~= seq![es[0]]);
            lemma_collect_one(c1, es[0]);
        },
        _ => {
            assert(es =~= seq![es[0], es[1]]);
            lemma_collect_two(c1, es[0], es[1]);
        },
    }
}

proof fn lemma_text_delta(item: JsonV, index: int, t: Seq<char>)
    ensures
        inner_data(item, index, Some("content_index"@)).with("delta"@, JsonV::Str(t)).with(
            "logprobs"@,
            JsonV::Array(Seq::empty()),
        ).str_or("delta"@, ""@) == t,
{
    broadcast use json::group_members;

    reveal_strlit("delta");
    reveal_strlit("logprobs");
    assert("delta"@.len() == 5 && "logprobs"@.len() == 8);
}

proof fn lemma_collect_step(t: ResponsesV, c: CollectorV, e: JsonV, uuid: Seq<char>, call_uuid: Seq<char>)
    requires
        t.collected_by(c),
        t.output_index < usize::MAX,
    ensures
        t.step(e, uuid, call_uuid).next.collected_by(c.collect_all(t.step(e, uuid, call_uuid).events)),
        t.step(e, uuid, call_uuid).next.output_index <= t.output_index + 1,
{
    let ty = events::type_of(e);
    let s = ResponsesV { last_cc_event: ty, ..t };
    let done = t.step(e, uuid, call_uuid);
    let last = done.events.last();
    let a = s.begun();
    lemma_collect_begun(s, c);
    lemma_inner_names();
    let ca = c.collect_all(a.events);
    if ty == "text-delta"@ {
        let x = events::delta_text_of(e);
        if x.len() > 0 {
            let m = a.next.ensured(ItemKind::Message, message_item(uuid));
            if !a.next.is_open(ItemKind::Message) {
                lemma_collect_opened(a.next, ca, ItemKind::Message, message_item(uuid));
            }
            lemma_collect_sum(c, a.events, m.events);
            let b = a.followed_by(m);
            lemma_collect_sum(c, b.events, seq![last]);
            lemma_collect_one(c.collect_all(b.events), last);
            assert(done.events =~= b.events + seq![last]);
            let i = m.next.with_buffered(x).current->0;
            lemma_text_delta(i.item, i.index as int, x);
        }
    } else if ty == "reasoning-delta"@ {
        let x = events::event_text_of(e);
        if x.len() > 0 {
            let m = a.next.ensured(ItemKind::Reasoning, reasoning_item(uuid));
            if !a.next.is_open(ItemKind::Reasoning) {
                lemma_collect_opened(a.next, ca, ItemKind::Reasoning, reasoning_item(uuid));
            }
            lemma_collect_sum(c, a.events, m.events);
            let b = a.followed_by(m);
            lemma_collect_sum(c, b.events, seq![last]);
            lemma_collect_one(c.collect_all(b.events), last);
            assert(done.events =~= b.events + seq![last]);
        }
    } else if ty == "tool-call"@ {
        let m = a.next.opened(ItemKind::FunctionCall, call_item(e, uuid, call_uuid));
        lemma_collect_opened(a.next, ca, ItemKind::FunctionCall, call_item(e, uuid, call_uuid));
        lemma_collect_sum(c, a.events, m.events);
        let b = a.followed_by(m);
        lemma_collect_sum(c, b.events, seq![last]);
        lemma_collect_one(c.collect_all(b.events), last);
        assert(done.events =~= b.events + seq![last]);
    }
}

proof fn lemma_step_keeps(t: ResponsesV, e: JsonV, uuid: Seq<char>, call_uuid: Seq<char>)
    ensures
        ({
            let ty = events::type_of(e);
            let next = t.step(e, uuid, call_uuid).next;
            &&& ty != "finish-step"@ && ty != "finish"@ ==> next.saw_finish == t.saw_finish && next.finish_reason
                == t.finish_reason
            &&& (ty == "finish-step"@ || ty == "finish"@) ==> next.saw_finish && (e.get_str("finishReason"@) matches Some(
                fr,
            ) ==> next.finish_reason == Some(errors::finish_reason_of(fr)))
            &&& next.text_acc == t.text_acc + (if ty == "text-delta"@ {
                events::delta_text_of(e)
            } else {
                Seq::empty()
            })
        }),
{
    reveal_strlit("text-delta");
    reveal_strlit("reasoning-delta");
    reveal_strlit("tool-call");
    reveal_strlit("finish-step");
    reveal_strlit("finish");
    assert("text-delta"@.len() == 10 && "reasoning-delta"@.len() == 15 && "tool-call"@.len() == 9);
    assert("finish-step"@.len() == 11 && "finish"@.len() == 6);
    let next = t.step(e, uuid, call_uuid).next;
    if events::type_of(e) == "text-delta"@ {
        assert(next.text_acc =~= t.text_acc + events::delta_text_of(e));
    } else {
        assert(next.text_acc =~= t.text_acc + Seq::<char>::empty());
    }
}

proof fn lemma_collect_lines(
    t: ResponsesV,
    c: CollectorV,
    lines: Seq<Seq<char>>,
    uuids: Seq<Seq<char>>,
    call_uuids: Seq<Seq<char>>,
)
    requires
        t.collected_by(c),
        t.output_index + lines.len() <= usize::MAX,
    ensures
        t.lines(lines, uuids, call_uuids).next.collected_by(c.collect_all(t.lines(lines, uuids, call_uuids).events)),
        t.lines(lines, uuids, call_uuids).next.output_index <= t.output_index + lines.len(),
        t.lines(lines, uuids, call_uuids).next.text_acc == t.text_acc + text_of_lines(lines),
    decreases lines.len(),
{
    if lines.len() > 0 {
        lemma_collect_lines(t, c, lines.drop_last(), uuids, call_uuids);
        let before = t.lines(lines.drop_last(), uuids, call_uuids);
        let i = lines.len() - 1;
        let last = before.next.line(lines.last(), uuids[i], call_uuids[i]);
        lemma_collect_sum(c, before.events, last.events);
        if let Some(e) = events::event_in(lines.last(), true) {
            lemma_collect_step(before.next, c.collect_all(before.events), e, uuids[i], call_uuids[i]);
            lemma_step_keeps(before.next, e, uuids[i], call_uuids[i]);
        }
        assert(last.next.text_acc =~= t.text_acc + text_of_lines(lines));
    } else {
        assert(t.text_acc + text_of_lines(lines) =~= t.text_acc);
    }
}

proof fn lemma_final_members(t: ResponsesV)
    ensures
        t.final_response().get("output_text"@) == Some(JsonV::Str(t.text_acc)),
        t.final_response().get("output"@) == Some(JsonV::Array(t.done_items)),
{
    broadcast use json::group_members;

    reveal_strlit("id");
    reveal_strlit("object");
    reveal_strlit("created_at");
    reveal_strlit("status");
    reveal_strlit("output");
    reveal_strlit("output_text");
    reveal_strlit("model");
    reveal_strlit("error");
    reveal_strlit("incomplete_details");
    reveal_strlit("parallel_tool_calls");
    reveal_strlit("previous_response_id");
    reveal_strlit("store");
    reveal_strlit("tools");
    reveal_strlit("metadata");
    reveal_strlit("usage");
    assert("output"@.len() == 6 && "output_text"@.len() == 11 && "output"@[1] == 'u');
    assert("object"@.len() == 6 && "object"@[1] == 'b' && "status"@.len() == 6 && "status"@[1] == 't');
    assert("model"@.len() == 5 && "error"@.len() == 5 && "incomplete_details"@.len() == 18);
    assert("parallel_tool_calls"@.len() == 19 && "previous_response_id"@.len() == 20 && "store"@.len() == 5);
    assert("tools"@.len() == 5 && "metadata"@.len() == 8 && "usage"@.len() == 5);
    let base = t.base_response(status_of(t.finish_reason), t.done_items);
    assert(base is Object);
    assert(base.get("output"@) == Some(JsonV::Array(t.done_items)));
}

/// Whatever the upstream says, the items of a response are told done in their order, and a
/// response that is told as whole, or as cut short by a limit, holds exactly what was said
/// before: its text is all pieces of text that the client was given, which are those of the
/// upstream, and its output the items that were told done, each at its place. Any other response
/// that began is told failed.
pub proof fn responses_hold_what_was_said(
    model: Seq<char>,
    response_id: Seq<char>,
    created: i64,
    lines: Seq<Seq<char>>,
    uuids: Seq<Seq<char>>,
    call_uuids: Seq<Seq<char>>,
)
    requires
        lines.len() <= usize::MAX,
    ensures
        ({
            let s = ResponsesV::start(model, response_id, created).lines(lines, uuids, call_uuids);
            let all = s.events + s.next.finished().events;
            let c = CollectorV::start().collect_all(all);
            &&& c.in_place
            &&& c.text == text_of_lines(lines)
            &&& all.len() > 0 ==> match all.last() {
                EventV::Completed { response } | EventV::Incomplete { response } => response.get("output_text"@) == Some(
                    JsonV::Str(c.text),
                ) && response.get("output"@) == Some(JsonV::Array(c.items)),
                EventV::Failed { .. } => s.next.incomplete() is Some,
                _ => false,
            }
        }),
{
    let t = ResponsesV::start(model, response_id, created);
    let s = t.lines(lines, uuids, call_uuids);
    let start = CollectorV::start();
    lemma_collect_lines(t, start, lines, uuids, call_uuids);
    assert(t.text_acc + text_of_lines(lines) =~= text_of_lines(lines));
    nothing_precedes_the_beginning(t, lines, uuids, call_uuids);
    let f = s.next.finished();
    lemma_collect_sum(start, s.events, f.events);
    if s.next.created_sent {
        let c = start.collect_all(s.events);
        lemma_collect_closed(s.next, c);
        let a = s.next.closed();
        let last = a.next.last_event();
        lemma_collect_sum(c, a.events, seq![last]);
        lemma_collect_one(c.collect_all(a.events), last);
        assert(f.events =~= a.events + seq![last]);
        assert((s.events + f.events).last() == last);
        lemma_final_members(a.next);
    }
}

proof fn lemma_last_reason(
    t: ResponsesV,
    lines: Seq<Seq<char>>,
    uuids: Seq<Seq<char>>,
    call_uuids: Seq<Seq<char>>,
    i: int,
    fr: Seq<char>,
)
    requires
        0 <= i < lines.len(),
        tells_end(lines[i]),
        events::event_in(lines[i], true)->0.get_str("finishReason"@) == Some(fr),
        forall|j: int| i < j < lines.len() ==> !tells_end(#[trigger] lines[j]),
    ensures
        t.lines(lines, uuids, call_uuids).next.saw_finish,
        t.lines(lines, uuids, call_uuids).next.finish_reason == Some(errors::finish_reason_of(fr)),
    decreases lines.len(),
{
    let k = lines.len() - 1;
    let before = t.lines(lines.drop_last(), uuids, call_uuids);
    if let Some(e) = events::event_in(lines.last(), true) {
        lemma_step_keeps(before.next, e, uuids[k], call_uuids[k]);
    }
    if i < k {
        assert(!tells_end(lines[k]));
        assert forall|j: int| i < j < lines.drop_last().len() implies !tells_end(#[trigger] lines.drop_last()[j]) by {
            assert(lines.drop_last()[j] == lines[j]);
        }
        lemma_last_reason(t, lines.drop_last(), uuids, call_uuids, i, fr);
    }
}

/// The last reason for an end that the upstream tells decides how a response that began ends: a
/// failed connection makes it fail, a limit or a pause leaves it incomplete, and every other
/// reason completes it.
pub proof fn last_reasons_decide(
    model: Seq<char>,
    response_id: Seq<char>,
    created: i64,
    lines: Seq<Seq<char>>,
    uuids: Seq<Seq<char>>,
    call_uuids: Seq<Seq<char>>,
    i: int,
    fr: Seq<char>,
)
    requires
        0 <= i < lines.len(),
        tells_end(lines[i]),
        events::event_in(lines[i], true)->0.get_str("finishReason"@) == Some(fr),
        forall|j: int| i < j < lines.len() ==> !tells_end(#[trigger] lines[j]),
    ensures
        ({
            let s = ResponsesV::start(model, response_id, created).lines(lines, uuids, call_uuids);
            let all = s.events + s.next.finished().events;
            let reason = errors::finish_reason_of(fr);
            s.events.len() > 0 ==> {
                &&& all.last() is Failed <==> reason == "upstream_error"@
                &&& all.last() is Incomplete <==> reason == "length"@ || reason == "pause_turn"@
                &&& all.last() is Failed || all.last() is Incomplete || all.last() is Completed
            }
        }),
{
    let t = ResponsesV::start(model, response_id, created);
    let s = t.lines(lines, uuids, call_uuids);
    lemma_last_reason(t, lines, uuids, call_uuids, i, fr);
    nothing_precedes_the_beginning(t, lines, uuids, call_uuids);
    reveal_strlit("upstream_error");
    reveal_strlit("length");
    reveal_strlit("pause_turn");
    assert("upstream_error"@.len() == 14 && "length"@.len() == 6 && "pause_turn"@.len() == 10);
    if s.next.created_sent {
        let f = s.next.finished();
        let last = s.next.closed().next.last_event();
        assert(f.events.last() == last);
        assert((s.events + f.events).last() == last);
    }
}

} // verus!
