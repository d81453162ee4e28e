//! A stream of a response says what the upstream says.

use vstd::prelude::*;
use crate::http_util;
use crate::json;
use crate::json::JsonV;
use crate::laws::events as said;
use crate::laws::members;
use crate::translate::events;
use crate::translate::responses;
use crate::translate::responses::{CurrentItemV, EventV, ItemKind, ResponsesV};

verus! {

/// What a client that watches the items of a response knows.
pub struct WatcherV {
    /// The item that was added last.
    pub item: JsonV,
    pub index: int,
    pub open: bool,
    /// The pieces that came for it, put together.
    pub pieces: Seq<char>,
    /// All pieces of text, and all pieces of reasoning.
    pub text: Seq<char>,
    pub reasoning: Seq<char>,
    /// The calls that are done.
    pub calls: Seq<JsonV>,
    /// Whether each event was right for the item that is open.
    pub sound: bool,
}

/// Whether the one part of a list holds a text.
pub open spec fn is_part(v: Option<JsonV>, ty: Seq<char>, t: Seq<char>) -> bool {
    v matches Some(JsonV::Array(ps)) && ps.len() == 1 && ps[0].get("type"@) == Some(JsonV::Str(ty)) && ps[0].get(
        "text"@,
    ) == Some(JsonV::Str(t))
}

impl WatcherV {
    pub open spec fn start() -> WatcherV {
        WatcherV {
            item: JsonV::Null,
            index: 0,
            open: false,
            pieces: Seq::empty(),
            text: Seq::empty(),
            reasoning: Seq::empty(),
            calls: Seq::empty(),
            sound: true,
        }
    }

    /// Whether the open item is of a type.
    pub open spec fn has_type(self, ty: Seq<char>) -> bool {
        self.item.get("type"@) == Some(JsonV::Str(ty))
    }

    /// Whether data belong to the open item.
    pub open spec fn owns(self, data: JsonV) -> bool {
        self.open && data.get("output_index"@) == Some(json::int_json(self.index)) && data.get("item_id"@) == Some(
            match self.item.get("id"@) {
                Some(id) => id,
                None => JsonV::Null,
            },
        )
    }

    /// A piece for the open item, which has to be of a type.
    pub open spec fn piece(self, data: JsonV, ty: Seq<char>) -> WatcherV {
        let d = members::text_or(data, "delta"@, Seq::empty());
        WatcherV {
            pieces: self.pieces + d,
            sound: self.sound && self.owns(data) && self.has_type(ty) && data.get("delta"@) == Some(JsonV::Str(d)),
            ..self
        }
    }

    /// Whether an item that is done is the open one with all its pieces.
    pub open spec fn is_done(self, item: JsonV) -> bool {
        &&& self.open
        &&& item.get("type"@) == self.item.get("type"@)
        &&& item.get("id"@) == self.item.get("id"@)
        &&& item.get("status"@) == Some(JsonV::Str("completed"@))
        &&& self.has_type("message"@) ==> is_part(item.get("content"@), "output_text"@, self.pieces) && item.get("role"@)
            == Some(JsonV::Str("assistant"@))
        &&& self.has_type("reasoning"@) ==> is_part(item.get("summary"@), "summary_text"@, self.pieces)
        &&& self.has_type("function_call"@) ==> item.get("arguments"@) == Some(JsonV::Str(self.pieces)) && item.get(
            "name"@,
        ) == self.item.get("name"@) && item.get("call_id"@) == self.item.get("call_id"@)
    }

    pub open spec fn watch(self, e: EventV) -> WatcherV {
        match e {
            EventV::ItemAdded { index, item } => WatcherV {
                item,
                index,
                open: true,
                pieces: Seq::empty(),
                sound: self.sound && !self.open,
                ..self
            },
            EventV::Inner { name, data, .. } => if name == "response.output_text.delta"@ {
                WatcherV {
                    text: self.text + members::text_or(data, "delta"@, Seq::empty()),
                    ..self.piece(data, "message"@)
                }
            } else if name == "response.reasoning_summary_text.delta"@ {
                WatcherV {
                    reasoning: self.reasoning + members::text_or(data, "delta"@, Seq::empty()),
                    ..self.piece(data, "reasoning"@)
                }
            } else if name == "response.function_call_arguments.delta"@ {
                self.piece(data, "function_call"@)
            } else if name == "response.output_text.done"@ || name == "response.reasoning_summary_text.done"@ {
                WatcherV {
                    sound: self.sound && self.owns(data) && data.get("text"@) == Some(JsonV::Str(self.pieces)),
                    ..self
                }
            } else if name == "response.content_part.done"@ || name == "response.reasoning_summary_part.done"@ {
                WatcherV {
                    sound: self.sound && self.owns(data) && members::inner(data, "part"@, "text"@) == Some(
                        JsonV::Str(self.pieces),
                    ),
                    ..self
                }
            } else if name == "response.function_call_arguments.done"@ {
                WatcherV {
                    sound: self.sound && self.owns(data) && data.get("arguments"@) == Some(JsonV::Str(self.pieces)),
                    ..self
                }
            } else {
                WatcherV { sound: self.sound && self.owns(data), ..self }
            },
            EventV::ItemDone { index, item } => WatcherV {
                open: false,
                calls: if self.has_type("function_call"@) {
                    self.calls.push(item)
                } else {
                    self.calls
                },
                sound: self.sound && index == self.index && self.is_done(item),
                ..self
            },
            _ => self,
        }
    }

    pub open spec fn watch_all(self, es: Seq<EventV>) -> WatcherV
        decreases es.len(),
    {
        if es.len() == 0 {
            self
        } else {
            self.watch_all(es.drop_last()).watch(es.last())
        }
    }
}

/// Whether an item that is done is a tool call of the upstream.
pub open spec fn is_call_of(item: JsonV, e: JsonV) -> bool {
    &&& item.get("type"@) == Some(JsonV::Str("function_call"@))
    &&& item.get("name"@) == Some(JsonV::Str(members::text_or(e, "toolName"@, Seq::empty())))
    &&& item.get("arguments"@) matches Some(JsonV::Str(a)) && said::is_input_of(a, e)
    &&& e.get("toolCallId"@) matches Some(JsonV::Str(id)) ==> id.len() > 0 ==> item.get("call_id"@) == Some(
        JsonV::Str(id),
    )
    &&& item.get("call_id"@) matches Some(JsonV::Str(id)) && id.len() > 0
}

spec fn kind_name(k: ItemKind) -> Seq<char> {
    match k {
        ItemKind::Message => "message"@,
        ItemKind::Reasoning => "reasoning"@,
        ItemKind::FunctionCall => "function_call"@,
    }
}

spec fn agrees(t: ResponsesV, w: WatcherV) -> bool {
    &&& w.sound
    &&& w.open == (t.current is Some)
    &&& t.current matches Some(c) ==> {
        &&& w.index == c.index
        &&& w.item is Object
        &&& w.has_type(kind_name(c.kind))
        &&& c.kind is Message ==> w.item.get("role"@) == Some(JsonV::Str("assistant"@))
        &&& c.kind is FunctionCall ==> c.item == w.item.with("arguments"@, JsonV::Str(w.pieces))
        &&& !(c.kind is FunctionCall) ==> c.item == w.item && c.text_buf == w.pieces
    }
}

spec fn calls_so_far(t: ResponsesV, w: WatcherV) -> Seq<JsonV> {
    w.calls + (match t.current {
        Some(c) => if c.kind is FunctionCall {
            seq![c.done_item()]
        } else {
            Seq::empty()
        },
        None => Seq::empty(),
    })
}

proof fn lemma_sum(w: WatcherV, a: Seq<EventV>, b: Seq<EventV>)
    ensures
        w.watch_all(a + b) == w.watch_all(a).watch_all(b),
    decreases b.len(),
{
    if b.len() == 0 {
        assert(a + b =~= a);
    } else {
        assert((a + b).drop_last() =~= a + b.drop_last());
        lemma_sum(w, a, b.drop_last());
    }
}

proof fn lemma_one(w: WatcherV, e: EventV)
    ensures
        w.watch_all(seq![e]) == w.watch(e),
{
    assert(seq![e].drop_last() =~= Seq::<EventV>::empty());
    reveal_with_fuel(WatcherV::watch_all, 2);
}

proof fn lemma_two(w: WatcherV, a: EventV, b: EventV)
    ensures
        w.watch_all(seq![a, b]) == w.watch(a).watch(b),
{
    assert(seq![a, b].drop_last() =~= seq![a]);
    lemma_one(w, a);
}

proof fn lemma_three(w: WatcherV, a: EventV, b: EventV, c: EventV)
    ensures
        w.watch_all(seq![a, b, c]) == w.watch(a).watch(b).watch(c),
{
    assert(seq![a, b, c].drop_last() =~= seq![a, b]);
    lemma_two(w, a, b);
}

proof fn lemma_names()
    ensures
        "message"@ != "reasoning"@,
        "message"@ != "function_call"@,
        "reasoning"@ != "function_call"@,
        "response.output_text.delta"@ != "response.reasoning_summary_text.delta"@,
        "response.output_text.delta"@ != "response.function_call_arguments.delta"@,
        "response.reasoning_summary_text.delta"@ != "response.function_call_arguments.delta"@,
        ({
            let n = "response.output_text.done"@;
            n != "response.output_text.delta"@ && n != "response.reasoning_summary_text.delta"@ && n
                != "response.function_call_arguments.delta"@
        }),
        ({
            let n = "response.reasoning_summary_text.done"@;
            n != "response.output_text.delta"@ && n != "response.reasoning_summary_text.delta"@ && n
                != "response.function_call_arguments.delta"@
        }),
        ({
            let n = "response.content_part.done"@;
            n != "response.output_text.delta"@ && n != "response.reasoning_summary_text.delta"@ && n
                != "response.function_call_arguments.delta"@ && n != "response.output_text.done"@ && n
                != "response.reasoning_summary_text.done"@
        }),
        ({
            let n = "response.reasoning_summary_part.done"@;
            n != "response.output_text.delta"@ && n != "response.reasoning_summary_text.delta"@ && n
                != "response.function_call_arguments.delta"@ && n != "response.output_text.done"@ && n
                != "response.reasoning_summary_text.done"@
        }),
        ({
            let n = "response.function_call_arguments.done"@;
            n != "response.output_text.delta"@ && n != "response.reasoning_summary_text.delta"@ && n
                != "response.function_call_arguments.delta"@ && n != "response.output_text.done"@ && n
                != "response.reasoning_summary_text.done"@ && n != "response.content_part.done"@ && n
                != "response.reasoning_summary_part.done"@
        }),
        ({
            let n = "response.content_part.added"@;
            n != "response.output_text.delta"@ && n != "response.reasoning_summary_text.delta"@ && n
                != "response.function_call_arguments.delta"@ && n != "response.output_text.done"@ && n
                != "response.reasoning_summary_text.done"@ && n != "response.content_part.done"@ && n
                != "response.reasoning_summary_part.done"@ && n != "response.function_call_arguments.done"@
        }),
        ({
            let n = "response.reasoning_summary_part.added"@;
            n != "response.output_text.delta"@ && n != "response.reasoning_summary_text.delta"@ && n
                != "response.function_call_arguments.delta"@ && n != "response.output_text.done"@ && n
                != "response.reasoning_summary_text.done"@ && n != "response.content_part.done"@ && n
                != "response.reasoning_summary_part.done"@ && n != "response.function_call_arguments.done"@
        }),
{
    reveal_strlit("message");
    reveal_strlit("reasoning");
    reveal_strlit("function_call");
    assert("message"@.len() == 7 && "reasoning"@.len() == 9 && "function_call"@.len() == 13);
    reveal_strlit("response.output_text.delta");
    reveal_strlit("response.reasoning_summary_text.delta");
    reveal_strlit("response.function_call_arguments.delta");
    reveal_strlit("response.output_text.done");
    reveal_strlit("response.reasoning_summary_text.done");
    reveal_strlit("response.content_part.done");
    reveal_strlit("response.reasoning_summary_part.done");
    reveal_strlit("response.function_call_arguments.done");
    reveal_strlit("response.content_part.added");
    reveal_strlit("response.reasoning_summary_part.added");
    assert("response.output_text.delta"@.len() == 26 && "response.reasoning_summary_text.delta"@.len() == 37);
    assert("response.function_call_arguments.delta"@.len() == 38 && "response.output_text.done"@.len() == 25);
    assert("response.reasoning_summary_text.done"@.len() == 36 && "response.content_part.done"@.len() == 26);
    assert("response.reasoning_summary_part.done"@.len() == 36);
    assert("response.function_call_arguments.done"@.len() == 37);
    assert("response.content_part.added"@.len() == 27 && "response.reasoning_summary_part.added"@.len() == 37);
    assert("response.content_part.done"@[9] == 'c' && "response.function_call_arguments.done"@[9] == 'f');
    assert("response.output_text.delta"@[9] == 'o' && "response.reasoning_summary_part.added"@[9] == 'r');
    assert("response.reasoning_summary_part.added"@[27] == 'p' && "response.reasoning_summary_part.done"@[27] == 'p');
    assert("response.reasoning_summary_text.delta"@[9] == 'r' && "response.reasoning_summary_text.delta"@[27] == 't');
    assert("response.reasoning_summary_text.done"@[27] == 't');
}

proof fn lemma_inner(item: JsonV, index: int, k: Seq<char>, v: JsonV)
    requires
        k == "delta"@ || k == "text"@ || k == "part"@ || k == "arguments"@,
    ensures
        ({
            let a = responses::inner_data(item, index, None).with(k, v);
            let b = responses::inner_data(item, index, Some("content_index"@)).with(k, v);
            let c = responses::inner_data(item, index, Some("summary_index"@)).with(k, v);
            let l = JsonV::Array(Seq::empty());
            let id = Some(item.or_null("id"@));
            let at = Some(json::int_json(index));
            &&& a is Object && a.get(k) == Some(v) && a.get("item_id"@) == id && a.get("output_index"@) == at
            &&& b is Object && b.get(k) == Some(v) && b.get("item_id"@) == id && b.get("output_index"@) == at
            &&& c is Object && c.get(k) == Some(v) && c.get("item_id"@) == id && c.get("output_index"@) == at
            &&& b.with("logprobs"@, l).get(k) == Some(v) && b.with("logprobs"@, l).get("item_id"@) == id && b.with(
                "logprobs"@,
                l,
            ).get("output_index"@) == at
        }),
{
    broadcast use members::group_reading;

    reveal_strlit("delta");
    reveal_strlit("text");
    reveal_strlit("part");
    reveal_strlit("arguments");
    reveal_strlit("item_id");
    reveal_strlit("output_index");
    reveal_strlit("content_index");
    reveal_strlit("summary_index");
    reveal_strlit("logprobs");
    assert("delta"@.len() == 5 && "text"@.len() == 4 && "part"@.len() == 4 && "arguments"@.len() == 9);
    assert("item_id"@.len() == 7 && "output_index"@.len() == 12 && "content_index"@.len() == 13);
    assert("summary_index"@.len() == 13);
    assert("logprobs"@.len() == 8 && "content_index"@[0] == 'c' && "part"@[0] == 'p' && "summary_index"@[0] == 's');
    assert("text"@[0] == 't');
    let d = JsonV::obj().with("item_id"@, item.or_null("id"@)).with("output_index"@, json::int_json(index));
    assert(d is Object && d.get("item_id"@) == Some(item.or_null("id"@)) && d.get("output_index"@) == Some(
        json::int_json(index),
    ));
    let e = d.with("content_index"@, json::int_json(0));
    assert(e.get("item_id"@) == d.get("item_id"@) && e.get("output_index"@) == d.get("output_index"@));
    let f = d.with("summary_index"@, json::int_json(0));
    assert(f.get("item_id"@) == d.get("item_id"@) && f.get("output_index"@) == d.get("output_index"@));
}

proof fn lemma_parts(t: Seq<char>)
    ensures
        responses::output_text_part(t).get("type"@) == Some(JsonV::Str("output_text"@)),
        responses::output_text_part(t).get("text"@) == Some(JsonV::Str(t)),
        responses::summary_part(t).get("type"@) == Some(JsonV::Str("summary_text"@)),
        responses::summary_part(t).get("text"@) == Some(JsonV::Str(t)),
{
    broadcast use members::group_reading;

    reveal_strlit("type");
    reveal_strlit("text");
    reveal_strlit("annotations");
    assert("type"@.len() == 4 && "text"@.len() == 4 && "annotations"@.len() == 11 && "text"@[1] == 'e');
    assert("type"@[1] == 'y');
}

proof fn lemma_done(w: WatcherV, c: CurrentItemV)
    requires
        w.open,
        w.item is Object,
        w.has_type(kind_name(c.kind)),
        c.kind is Message ==> w.item.get("role"@) == Some(JsonV::Str("assistant"@)),
        c.kind is FunctionCall ==> c.item == w.item.with("arguments"@, JsonV::Str(w.pieces)),
        !(c.kind is FunctionCall) ==> c.item == w.item && c.text_buf == w.pieces,
    ensures
        w.is_done(c.done_item()),
        c.item.or_null("id"@) == (match w.item.get("id"@) {
            Some(id) => id,
            None => JsonV::Null,
        }),
        c.kind is FunctionCall ==> c.item.get("arguments"@) == Some(JsonV::Str(w.pieces)),
{
    broadcast use members::group_reading;

    lemma_names();
    lemma_parts(c.text_buf);
    reveal_strlit("type");
    reveal_strlit("id");
    reveal_strlit("status");
    reveal_strlit("content");
    reveal_strlit("role");
    reveal_strlit("summary");
    reveal_strlit("arguments");
    reveal_strlit("name");
    reveal_strlit("call_id");
    assert("type"@.len() == 4 && "id"@.len() == 2 && "status"@.len() == 6 && "content"@.len() == 7);
    assert("role"@.len() == 4 && "summary"@.len() == 7 && "arguments"@.len() == 9 && "name"@.len() == 4);
    assert("call_id"@.len() == 7 && "call_id"@[0] == 'c' && "call_id"@[1] == 'a' && "content"@[0] == 'c');
    assert("content"@[1] == 'o' && "name"@[0] == 'n' && "role"@[0] == 'r' && "summary"@[0] == 's');
    assert("type"@[0] == 't');
    let one = seq![responses::output_text_part(c.text_buf)];
    let two = seq![responses::summary_part(c.text_buf)];
    let item = match c.kind {
        ItemKind::Message => c.item.with("content"@, JsonV::Array(one)),
        ItemKind::FunctionCall => c.item,
        ItemKind::Reasoning => c.item.with("summary"@, JsonV::Array(two)),
    };
    assert(c.item is Object);
    assert(item is Object);
    assert(item.get("type"@) == w.item.get("type"@));
    assert(item.get("id"@) == w.item.get("id"@));
}

proof fn lemma_closed(t: ResponsesV, w: WatcherV)
    requires
        agrees(t, w),
    ensures
        ({
            let v = w.watch_all(t.closed().events);
            &&& agrees(t.closed().next, v)
            &&& t.closed().next.current is None
            &&& v.text == w.text && v.reasoning == w.reasoning
            &&& v.calls == calls_so_far(t, w)
        }),
{
    lemma_names();
    if let Some(c) = t.current {
        let es = c.close_events();
        let i = c.index as int;
        lemma_done(w, c);
        lemma_parts(c.text_buf);
        lemma_inner(c.item, i, "text"@, JsonV::Str(c.text_buf));
        lemma_inner(c.item, i, "part"@, responses::output_text_part(c.text_buf));
        lemma_inner(c.item, i, "part"@, responses::summary_part(c.text_buf));
        lemma_inner(c.item, i, "arguments"@, c.item.or_null("arguments"@));
        match c.kind {
            ItemKind::FunctionCall => {
                assert(es =~= seq![es[0], es[1]]);
                lemma_two(w, es[0], es[1]);
                assert(w.watch(es[0]) == w);
            },
            _ => {
                assert(es =~= seq![es[0], es[1], es[2]]);
                lemma_three(w, es[0], es[1], es[2]);
                assert(w.watch(es[0]) == w);
                assert(w.watch(es[1]) == w);
                assert(calls_so_far(t, w) =~= w.calls);
            },
        }
    } else {
        assert(calls_so_far(t, w) =~= w.calls);
    }
}

proof fn lemma_opened(t: ResponsesV, w: WatcherV, kind: ItemKind, item: JsonV)
    requires
        agrees(t, w),
        item is Object,
        item.get("type"@) == Some(JsonV::Str(kind_name(kind))),
        kind is Message ==> item.get("role"@) == Some(JsonV::Str("assistant"@)),
    ensures
        ({
            let n = t.opened(kind, item);
            let v = w.watch_all(n.events);
            &&& v.sound && v.open && v.item == item && v.pieces == Seq::<char>::empty()
            &&& n.next.current matches Some(c) && c.kind == kind && c.item == item && v.index == c.index && c.text_buf
                == Seq::<char>::empty()
            &&& v.text == w.text && v.reasoning == w.reasoning
            &&& v.calls == calls_so_far(t, w)
        }),
{
    lemma_names();
    lemma_closed(t, w);
    let s = t.closed();
    let w1 = w.watch_all(s.events);
    let c = CurrentItemV { kind, index: s.next.output_index, item, text_buf: Seq::empty() };
    let es = c.open_events();
    lemma_sum(w, s.events, es);
    let i = c.index as int;
    lemma_inner(item, i, "part"@, responses::output_text_part(""@));
    lemma_inner(item, i, "part"@, responses::summary_part(""@));
    match kind {
        ItemKind::FunctionCall => {
            assert(es =~= seq![es[0]]);
            lemma_one(w1, es[0]);
        },
        _ => {
            assert(es =~= seq![es[0], es[1]]);
            lemma_two(w1, es[0], es[1]);
        },
    }
}

proof fn lemma_begun(t: ResponsesV, w: WatcherV)
    requires
        agrees(t, w),
    ensures
        w.watch_all(t.begun().events) == w,
        agrees(t.begun().next, w),
        t.begun().next.current == t.current,
{
    if !t.created_sent {
        let x = t.base_response("in_progress"@, Seq::empty());
        lemma_two(w, EventV::Created { response: x }, EventV::InProgress { response: x });
    }
}

proof fn lemma_items(uuid: Seq<char>, e: JsonV, call_uuid: Seq<char>)
    ensures
        responses::message_item(uuid).get("type"@) == Some(JsonV::Str("message"@)),
        responses::message_item(uuid).get("role"@) == Some(JsonV::Str("assistant"@)),
        responses::reasoning_item(uuid).get("type"@) == Some(JsonV::Str("reasoning"@)),
        ({
            let c = responses::call_item(e, uuid, call_uuid);
            &&& c is Object
            &&& c.get("type"@) == Some(JsonV::Str("function_call"@))
            &&& c.get("name"@) == Some(JsonV::Str(members::text_or(e, "toolName"@, Seq::empty())))
            &&& e.get("toolCallId"@) matches Some(JsonV::Str(id)) ==> id.len() > 0 ==> c.get("call_id"@) == Some(
                JsonV::Str(id),
            )
            &&& c.get("call_id"@) matches Some(JsonV::Str(id)) && id.len() > 0
        }),
{
    broadcast use members::group_reading;

    reveal_strlit("type");
    reveal_strlit("id");
    reveal_strlit("status");
    reveal_strlit("role");
    reveal_strlit("content");
    reveal_strlit("summary");
    reveal_strlit("call_id");
    reveal_strlit("name");
    reveal_strlit("arguments");
    assert("type"@.len() == 4 && "id"@.len() == 2 && "status"@.len() == 6 && "role"@.len() == 4);
    assert("content"@.len() == 7 && "summary"@.len() == 7 && "call_id"@.len() == 7 && "name"@.len() == 4);
    assert("arguments"@.len() == 9 && "call_id"@[0] == 'c' && "call_id"@[1] == 'a' && "content"@[0] == 'c');
    assert("content"@[1] == 'o' && "name"@[0] == 'n' && "role"@[0] == 'r' && "summary"@[0] == 's');
    assert("type"@[0] == 't');
    reveal_strlit("");
    reveal_strlit("call_");
    assert(""@ =~= Seq::<char>::empty());
    let call_id = match e.get_nonempty("toolCallId"@) {
        Some(id) => id,
        None => responses::id_of("call_"@, call_uuid),
    };
    let a = JsonV::obj().with("type"@, JsonV::Str("function_call"@)).with(
        "id"@,
        JsonV::Str(responses::id_of("fc_"@, uuid)),
    ).with("call_id"@, JsonV::Str(call_id));
    assert(a.get("type"@) == Some(JsonV::Str("function_call"@)) && a.get("call_id"@) == Some(JsonV::Str(call_id)));
    assert(call_id.len() > 0);
    let m = JsonV::obj().with("type"@, JsonV::Str("message"@)).with(
        "id"@,
        JsonV::Str(responses::id_of("msg_"@, uuid)),
    );
    assert(m.get("type"@) == Some(JsonV::Str("message"@)));
    let r = JsonV::obj().with("type"@, JsonV::Str("reasoning"@)).with(
        "id"@,
        JsonV::Str(responses::id_of("rs_"@, uuid)),
    );
    assert(r.get("type"@) == Some(JsonV::Str("reasoning"@)));
}

/// What a piece of text or reasoning does.
proof fn lemma_words(t: ResponsesV, w: WatcherV, x: Seq<char>, uuid: Seq<char>, text: bool)
    requires
        agrees(t, w),
        x.len() > 0,
    ensures
        ({
            let n = if text {
                t.on_text(x, uuid)
            } else {
                t.on_reasoning(x, uuid)
            };
            let v = w.watch_all(n.events);
            &&& agrees(n.next, v)
            &&& v.text == (if text {
                w.text + x
            } else {
                w.text
            })
            &&& v.reasoning == (if text {
                w.reasoning
            } else {
                w.reasoning + x
            })
            &&& calls_so_far(n.next, v) == calls_so_far(t, w)
        }),
{
    lemma_names();
    lemma_begun(t, w);
    lemma_items(uuid, JsonV::Null, uuid);
    let kind = if text {
        ItemKind::Message
    } else {
        ItemKind::Reasoning
    };
    let item = if text {
        responses::message_item(uuid)
    } else {
        responses::reasoning_item(uuid)
    };
    let n = if text {
        t.on_text(x, uuid)
    } else {
        t.on_reasoning(x, uuid)
    };
    let a = t.begun();
    let m = a.next.ensured(kind, item);
    lemma_sum(w, a.events, m.events);
    let w1 = w.watch_all(m.events);
    if a.next.is_open(kind) {
        assert(m.events =~= Seq::<EventV>::empty());
        assert(w1 == w);
    } else {
        lemma_opened(a.next, w, kind, item);
        assert(calls_so_far(a.next, w) == calls_so_far(t, w));
    }
    let c = m.next.with_buffered(x).current->0;
    let last = n.events.last();
    let b = a.followed_by(m);
    lemma_sum(w, b.events, seq![last]);
    lemma_one(w1, last);
    assert(n.events =~= b.events + seq![last]);
    lemma_inner(c.item, c.index as int, "delta"@, JsonV::Str(x));
    let v = w1.watch(last);
    assert(v.pieces =~= w1.pieces + x);
    assert(agrees(n.next, v));
    if a.next.is_open(kind) {
        assert(calls_so_far(n.next, v) =~= calls_so_far(t, w));
    } else {
        assert(calls_so_far(n.next, v) =~= w1.calls);
    }
}

proof fn lemma_call(t: ResponsesV, w: WatcherV, e: JsonV, uuid: Seq<char>, call_uuid: Seq<char>)
    requires
        agrees(t, w),
    ensures
        ({
            let n = t.on_call(e, uuid, call_uuid);
            let v = w.watch_all(n.events);
            &&& agrees(n.next, v)
            &&& v.text == w.text && v.reasoning == w.reasoning
            &&& calls_so_far(n.next, v).len() == calls_so_far(t, w).len() + 1
            &&& calls_so_far(n.next, v).drop_last() == calls_so_far(t, w)
            &&& is_call_of(calls_so_far(n.next, v).last(), e)
        }),
{
    broadcast use members::group_reading;

    lemma_names();
    lemma_begun(t, w);
    lemma_items(uuid, e, call_uuid);
    said::inputs_are_handed_on(e);
    let item = responses::call_item(e, uuid, call_uuid);
    let x = events::arguments_of(e);
    let n = t.on_call(e, uuid, call_uuid);
    let a = t.begun();
    let m = a.next.opened(ItemKind::FunctionCall, item);
    lemma_opened(a.next, w, ItemKind::FunctionCall, item);
    assert(calls_so_far(a.next, w) == calls_so_far(t, w));
    lemma_sum(w, a.events, m.events);
    let w1 = w.watch_all(m.events);
    let c = m.next.with_arguments(x).current->0;
    let last = n.events.last();
    let b = a.followed_by(m);
    lemma_sum(w, b.events, seq![last]);
    lemma_one(w1, last);
    assert(n.events =~= b.events + seq![last]);
    reveal_strlit("id");
    reveal_strlit("arguments");
    reveal_strlit("type");
    reveal_strlit("name");
    reveal_strlit("call_id");
    reveal_strlit("status");
    assert("id"@.len() == 2 && "arguments"@.len() == 9 && "type"@.len() == 4 && "name"@.len() == 4);
    assert("call_id"@.len() == 7 && "status"@.len() == 6 && "name"@[0] == 'n' && "type"@[0] == 't');
    assert(c.item == item.with("arguments"@, JsonV::Str(x)));
    assert(c.item.get("id"@) == item.get("id"@));
    lemma_inner(c.item, c.index as int, "delta"@, JsonV::Str(x));
    let v = w1.watch(last);
    assert(v.pieces =~= x);
    assert(agrees(n.next, v));
    let d = c.done_item();
    assert(calls_so_far(n.next, v) =~= w1.calls.push(d));
    assert(calls_so_far(n.next, v).drop_last() =~= w1.calls);
    assert(d.get("arguments"@) == Some(JsonV::Str(x)));
    assert(d.get("type"@) == item.get("type"@) && d.get("name"@) == item.get("name"@) && d.get("call_id"@) == item.get(
        "call_id"@,
    ));
}

proof fn lemma_step(t: ResponsesV, w: WatcherV, e: JsonV, uuid: Seq<char>, call_uuid: Seq<char>)
    requires
        agrees(t, w),
        e.get("type"@) matches Some(JsonV::Str(_)),
    ensures
        ({
            let n = t.step(e, uuid, call_uuid);
            let v = w.watch_all(n.events);
            let ty = e.get("type"@);
            &&& agrees(n.next, v)
            &&& v.text == w.text + (if ty == Some(JsonV::Str("text-delta"@)) {
                said::said(e)
            } else {
                Seq::empty()
            })
            &&& v.reasoning == w.reasoning + (if ty == Some(JsonV::Str("reasoning-delta"@)) {
                members::plain(e.get("text"@))
            } else {
                Seq::empty()
            })
            &&& ty != Some(JsonV::Str("tool-call"@)) ==> calls_so_far(n.next, v) == calls_so_far(t, w)
            &&& ty == Some(JsonV::Str("tool-call"@)) ==> calls_so_far(n.next, v).len() == calls_so_far(t, w).len() + 1
                && calls_so_far(n.next, v).drop_last() == calls_so_far(t, w) && is_call_of(
                calls_so_far(n.next, v).last(),
                e,
            )
        }),
{
    said::lemma_types();
    said::event_texts_are_as_said(e);
    let ty = events::type_of(e);
    let s = ResponsesV { last_cc_event: ty, ..t };
    let n = t.step(e, uuid, call_uuid);
    let v = w.watch_all(n.events);
    assert(agrees(s, w));
    assert(calls_so_far(s, w) == calls_so_far(t, w));
    if ty == "text-delta"@ {
        let x = events::delta_text_of(e);
        if x.len() > 0 {
            lemma_words(s, w, x, uuid, true);
        }
    } else if ty == "reasoning-delta"@ {
        let x = events::event_text_of(e);
        if x.len() > 0 {
            lemma_words(s, w, x, uuid, false);
        }
    } else if ty == "tool-call"@ {
        lemma_call(s, w, e, uuid, call_uuid);
    } else {
        assert(n.events =~= Seq::<EventV>::empty());
        assert(calls_so_far(n.next, v) == calls_so_far(t, w));
    }
    assert(v.text =~= w.text + (if ty == "text-delta"@ {
        said::said(e)
    } else {
        Seq::empty()
    }));
    assert(v.reasoning =~= w.reasoning + (if ty == "reasoning-delta"@ {
        members::plain(e.get("text"@))
    } else {
        Seq::empty()
    }));
}

proof fn lemma_lines(
    t: ResponsesV,
    lines: Seq<Seq<char>>,
    uuids: Seq<Seq<char>>,
    call_uuids: Seq<Seq<char>>,
)
    requires
        t.current is None,
    ensures
        ({
            let n = t.lines(lines, uuids, call_uuids);
            let v = WatcherV::start().watch_all(n.events);
            let cs = said::calls_by(lines, true);
            &&& agrees(n.next, v)
            &&& v.text == said::said_by(lines, true, "text-delta"@)
            &&& v.reasoning == said::said_by(lines, true, "reasoning-delta"@)
            &&& calls_so_far(n.next, v).len() == cs.len()
            &&& forall|i: int| 0 <= i < cs.len() ==> is_call_of(#[trigger] calls_so_far(n.next, v)[i], cs[i])
        }),
    decreases lines.len(),
{
    if lines.len() == 0 {
        assert(calls_so_far(t, WatcherV::start()) =~= Seq::<JsonV>::empty());
    } else {
        let front = lines.drop_last();
        lemma_lines(t, front, uuids, call_uuids);
        let before = t.lines(front, uuids, call_uuids);
        let w = WatcherV::start().watch_all(before.events);
        let k = lines.len() - 1;
        let last = before.next.line(lines.last(), uuids[k], call_uuids[k]);
        lemma_sum(WatcherV::start(), before.events, last.events);
        said::lemma_types();
        said::other_lines_are_none(lines.last(), true);
        let n = t.lines(lines, uuids, call_uuids);
        let v = WatcherV::start().watch_all(n.events);
        match events::event_in(lines.last(), true) {
            Some(e) => {
                lemma_step(before.next, w, e, uuids[k], call_uuids[k]);
                let now = calls_so_far(n.next, v);
                let old_calls = calls_so_far(before.next, w);
                let cs = said::calls_by(lines, true);
                assert forall|i: int| 0 <= i < cs.len() implies is_call_of(#[trigger] now[i], cs[i]) by {
                    if i < old_calls.len() {
                        assert(now[i] == old_calls[i]);
                    }
                }
            },
            None => {
                assert(last.events =~= Seq::<EventV>::empty());
                assert(v.text =~= said::said_by(lines, true, "text-delta"@));
                assert(v.reasoning =~= said::said_by(lines, true, "reasoning-delta"@));
            },
        }
    }
}

/// Over any lines and the end of the stream, each item is told with its own pieces and is done
/// with all of them; all pieces of text are, to the character, what the text events say, those of
/// reasoning what the reasoning events say; and the tool calls of the upstream, all of them and in
/// their order, are items that are done.
pub proof fn clients_read_what_is_said(
    model: Seq<char>,
    response_id: Seq<char>,
    created: i64,
    lines: Seq<Seq<char>>,
    uuids: Seq<Seq<char>>,
    call_uuids: Seq<Seq<char>>,
)
    ensures
        ({
            let s = ResponsesV::start(model, response_id, created).lines(lines, uuids, call_uuids);
            let w = WatcherV::start().watch_all(s.events + s.next.finished().events);
            let cs = said::calls_by(lines, true);
            &&& w.sound && !w.open
            &&& w.text == said::said_by(lines, true, "text-delta"@)
            &&& w.reasoning == said::said_by(lines, true, "reasoning-delta"@)
            &&& w.calls.len() == cs.len()
            &&& forall|i: int| 0 <= i < cs.len() ==> is_call_of(#[trigger] w.calls[i], cs[i])
        }),
{
    let t = ResponsesV::start(model, response_id, created);
    lemma_lines(t, lines, uuids, call_uuids);
    responses::nothing_precedes_the_beginning(t, lines, uuids, call_uuids);
    let s = t.lines(lines, uuids, call_uuids);
    let w = WatcherV::start().watch_all(s.events);
    let f = s.next.finished();
    lemma_sum(WatcherV::start(), s.events, f.events);
    if s.next.created_sent {
        lemma_closed(s.next, w);
        let a = s.next.closed();
        let last = a.next.last_event();
        lemma_sum(w, a.events, seq![last]);
        lemma_one(w.watch_all(a.events), last);
        assert(f.events =~= a.events + seq![last]);
    } else {
        assert(f.events =~= Seq::<EventV>::empty());
        assert(calls_so_far(s.next, w) =~= w.calls);
    }
}

/// An event holds what it is about.
pub proof fn events_hold_their_data(e: EventV)
    ensures
        match e {
            EventV::Created { response } | EventV::InProgress { response } | EventV::Completed { response }
            | EventV::Incomplete { response } | EventV::Failed { response } => e.data().get("response"@) == Some(
                response,
            ),
            EventV::ItemAdded { index, item } | EventV::ItemDone { index, item } => e.data().get("item"@) == Some(item)
                && e.data().get("output_index"@) == Some(json::int_json(index)),
            EventV::Inner { data, .. } => e.data() == data,
            EventV::Error { message } => message.len() > 0 ==> e.data().get("message"@) == Some(JsonV::Str(message)),
        },
{
    broadcast use members::group_reading;

    reveal_strlit("response");
    reveal_strlit("item");
    reveal_strlit("output_index");
    reveal_strlit("message");
    reveal_strlit("code");
    reveal_strlit("param");
    assert("response"@.len() == 8 && "item"@.len() == 4 && "output_index"@.len() == 12 && "message"@.len() == 7);
    assert("code"@.len() == 4 && "param"@.len() == 5 && "code"@[0] == 'c' && "item"@[0] == 'i');
}

/// An event is sent under the name that clients know.
pub proof fn events_have_their_names(e: EventV)
    ensures
        e.name() == (match e {
            EventV::Created { .. } => "response.created"@,
            EventV::InProgress { .. } => "response.in_progress"@,
            EventV::ItemAdded { .. } => "response.output_item.added"@,
            EventV::Inner { name, .. } => name,
            EventV::ItemDone { .. } => "response.output_item.done"@,
            EventV::Completed { .. } => "response.completed"@,
            EventV::Incomplete { .. } => "response.incomplete"@,
            EventV::Failed { .. } => "response.failed"@,
            EventV::Error { .. } => "error"@,
        }),
{
}

proof fn lemma_with_members(head: JsonV, es: json::Members, n: nat, k: Seq<char>)
    requires
        head is Object,
        n <= es.len(),
        json::distinct_names(es),
    ensures
        http_util::with_members(head, es, n) is Object,
        (forall|i: int| 0 <= i < n ==> (#[trigger] es[i]).0 != k) ==> http_util::with_members(head, es, n).get(k)
            == head.get(k),
        forall|i: int| 0 <= i < n && (#[trigger] es[i]).0 == k ==> http_util::with_members(head, es, n).get(k) == Some(
            es[i].1,
        ),
    decreases n,
{
    broadcast use members::group_reading;

    if n > 0 {
        lemma_with_members(head, es, (n - 1) as nat, k);
    }
}

/// The data of an event are sent with it, member by member, under its name and number.
pub proof fn data_are_sent(number: u64, name: Seq<char>, es: json::Members, i: int)
    requires
        0 <= i < es.len(),
        json::distinct_names(es),
        forall|j: int| 0 <= j < es.len() ==> (#[trigger] es[j]).0 != "type"@ && es[j].0 != "sequence_number"@,
    ensures
        ({
            let p = responses::payload(number, name, JsonV::Object(es));
            &&& p.get(es[i].0) == Some(es[i].1)
            &&& p.get("type"@) == Some(JsonV::Str(name))
            &&& p.get("sequence_number"@) == Some(json::int_json(number as int))
            &&& responses::numbered_text(number, name, JsonV::Object(es)) == "event: "@ + name + "\ndata: "@
                + json::json_text(p) + "\n\n"@
        }),
{
    broadcast use members::group_reading;

    reveal_strlit("type");
    reveal_strlit("sequence_number");
    assert("type"@.len() == 4 && "sequence_number"@.len() == 15);
    let head = JsonV::obj().with("type"@, JsonV::Str(name)).with("sequence_number"@, json::int_json(number as int));
    assert(head is Object && head.get("type"@) == Some(JsonV::Str(name)) && head.get("sequence_number"@) == Some(
        json::int_json(number as int),
    ));
    lemma_with_members(head, es, es.len(), es[i].0);
    lemma_with_members(head, es, es.len(), "type"@);
    lemma_with_members(head, es, es.len(), "sequence_number"@);
}

/// A response names its identifier, its model and when it was made, and how it stands.
pub proof fn responses_name_themselves(t: ResponsesV, status: Seq<char>, output: Seq<JsonV>)
    ensures
        ({
            let r = t.base_response(status, output);
            &&& r.get("id"@) == Some(JsonV::Str(t.response_id))
            &&& r.get("model"@) == Some(JsonV::Str(t.model))
            &&& r.get("created_at"@) == Some(json::int_json(t.created as int))
            &&& r.get("status"@) == Some(JsonV::Str(status))
            &&& r.get("output"@) == Some(JsonV::Array(output))
            &&& r.get("object"@) == Some(JsonV::Str("response"@))
            &&& r is Object
        }),
{
    broadcast use members::group_reading;

    reveal_strlit("id");
    reveal_strlit("object");
    reveal_strlit("created_at");
    reveal_strlit("status");
    reveal_strlit("output");
    reveal_strlit("output_text");
    reveal_strlit("model");
    reveal_strlit("error");
    reveal_strlit("incomplete_details");
    reveal_strlit("parallel_tool_calls");
    reveal_strlit("previous_response_id");
    reveal_strlit("store");
    reveal_strlit("tools");
    reveal_strlit("metadata");
    assert("id"@.len() == 2 && "object"@.len() == 6 && "created_at"@.len() == 10 && "status"@.len() == 6);
    assert("output"@.len() == 6 && "output_text"@.len() == 11 && "model"@.len() == 5 && "error"@.len() == 5);
    assert("incomplete_details"@.len() == 18 && "parallel_tool_calls"@.len() == 19);
    assert("previous_response_id"@.len() == 20 && "store"@.len() == 5);
    assert("tools"@.len() == 5 && "metadata"@.len() == 8 && "error"@[0] == 'e' && "model"@[0] == 'm');
    assert("object"@[0] == 'o' && "object"@[1] == 'b' && "output"@[0] == 'o' && "output"@[1] == 'u');
    assert("status"@[0] == 's' && "store"@[0] == 's' && "tools"@[0] == 't');
    let a = JsonV::obj().with("id"@, JsonV::Str(t.response_id)).with("object"@, JsonV::Str("response"@)).with(
        "created_at"@,
        json::int_json(t.created as int),
    ).with("status"@, JsonV::Str(status)).with("output"@, JsonV::Array(output));
    assert(a.get("id"@) == Some(JsonV::Str(t.response_id)) && a.get("object"@) == Some(JsonV::Str("response"@)));
    assert(a.get("created_at"@) == Some(json::int_json(t.created as int)));
    assert(a.get("status"@) == Some(JsonV::Str(status)) && a.get("output"@) == Some(JsonV::Array(output)));
    let b = a.with("output_text"@, JsonV::Str(""@)).with("model"@, JsonV::Str(t.model)).with("error"@, JsonV::Null).with(
        "incomplete_details"@,
        JsonV::Null,
    );
    assert(b.get("id"@) == a.get("id"@) && b.get("object"@) == a.get("object"@) && b.get("created_at"@) == a.get(
        "created_at"@,
    ) && b.get("status"@) == a.get("status"@) && b.get("output"@) == a.get("output"@));
    assert(b.get("model"@) == Some(JsonV::Str(t.model)));
}

/// A response that failed says so, with the message that it is given.
pub proof fn failures_tell_their_message(t: ResponsesV, message: JsonV)
    ensures
        ({
            let r = t.failed_response(message);
            &&& r.get("status"@) == Some(JsonV::Str("failed"@))
            &&& members::inner(r, "error"@, "message"@) == Some(message)
            &&& r.get("id"@) == Some(JsonV::Str(t.response_id))
        }),
{
    broadcast use members::group_reading;

    responses_name_themselves(t, "failed"@, Seq::empty());
    reveal_strlit("status");
    reveal_strlit("error");
    reveal_strlit("id");
    reveal_strlit("code");
    reveal_strlit("message");
    assert("status"@.len() == 6 && "error"@.len() == 5 && "id"@.len() == 2 && "code"@.len() == 4);
    assert("message"@.len() == 7);
}

/// A response that ended says whether it is whole, tells its usage, and names the limit that cut
/// it short.
pub proof fn ends_tell_status_and_usage(t: ResponsesV)
    ensures
        ({
            let r = t.final_response();
            let cut = t.finish_reason == Some("length"@) || t.finish_reason == Some("pause_turn"@);
            &&& r.get("id"@) == Some(JsonV::Str(t.response_id))
            &&& r.get("model"@) == Some(JsonV::Str(t.model))
            &&& r.get("status"@) == Some(
                JsonV::Str(
                    if cut {
                        "incomplete"@
                    } else {
                        "completed"@
                    },
                ),
            )
            &&& r.get("usage"@) == Some(responses::responses_usage(t.usage, t.output_tokens))
            &&& t.finish_reason == Some("length"@) ==> members::inner(r, "incomplete_details"@, "reason"@) == Some(
                JsonV::Str("max_output_tokens"@),
            )
            &&& t.finish_reason == Some("pause_turn"@) ==> members::inner(r, "incomplete_details"@, "reason"@) == Some(
                JsonV::Str("pause_turn"@),
            )
            &&& !cut ==> r.get("incomplete_details"@) == Some(JsonV::Null)
        }),
{
    broadcast use members::group_reading;

    responses_name_themselves(t, responses::status_of(t.finish_reason), t.done_items);
    reveal_strlit("id");
    reveal_strlit("model");
    reveal_strlit("status");
    reveal_strlit("usage");
    reveal_strlit("incomplete_details");
    reveal_strlit("output_text");
    reveal_strlit("reason");
    reveal_strlit("length");
    reveal_strlit("pause_turn");
    assert("id"@.len() == 2 && "model"@.len() == 5 && "status"@.len() == 6 && "usage"@.len() == 5);
    assert("incomplete_details"@.len() == 18 && "output_text"@.len() == 11 && "reason"@.len() == 6);
    assert("length"@.len() == 6);
    assert("pause_turn"@.len() == 10 && "length"@[0] == 'l' && "model"@[0] == 'm' && "reason"@[0] == 'r');
    assert("status"@[0] == 's' && "usage"@[0] == 'u');
}

} // verus!
