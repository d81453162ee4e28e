//! A stream of an Anthropic message says what the upstream says.

use vstd::prelude::*;
use crate::errors;
use crate::json;
use crate::json::JsonV;
use crate::laws::events as said;
use crate::laws::members;
use crate::translate::anthropic::{AnthropicV, FrameV};
use crate::translate::anthropic;
use crate::translate::events;
use crate::util;

verus! {

/// What a frame adds to the open block, in a delta of a type.
pub open spec fn added(f: FrameV, ty: Seq<char>, member: Seq<char>) -> Seq<char> {
    match f {
        FrameV::BlockDelta { delta, .. } => if delta.get("type"@) == Some(JsonV::Str(ty)) {
            members::text_or(delta, member, Seq::empty())
        } else {
            Seq::empty()
        },
        _ => Seq::empty(),
    }
}

/// What frames add, put together as a client does.
pub open spec fn joined(fs: Seq<FrameV>, ty: Seq<char>, member: Seq<char>) -> Seq<char>
    decreases fs.len(),
{
    if fs.len() == 0 {
        Seq::empty()
    } else {
        joined(fs.drop_last(), ty, member) + added(fs.last(), ty, member)
    }
}

/// The texts, and the thinking, of frames.
pub open spec fn text_of(fs: Seq<FrameV>) -> Seq<char> {
    joined(fs, "text_delta"@, "text"@)
}

/// The thinking that frames add.
pub open spec fn thinking_of(fs: Seq<FrameV>) -> Seq<char> {
    joined(fs, "thinking_delta"@, "thinking"@)
}

/// The blocks that use a tool, as they begin.
pub open spec fn uses(fs: Seq<FrameV>) -> Seq<JsonV>
    decreases fs.len(),
{
    if fs.len() == 0 {
        Seq::empty()
    } else {
        match fs.last() {
            FrameV::BlockStart { block, .. } => if block.get("type"@) == Some(JsonV::Str("tool_use"@)) {
                uses(fs.drop_last()).push(block)
            } else {
                uses(fs.drop_last())
            },
            _ => uses(fs.drop_last()),
        }
    }
}

/// The inputs of the blocks that use a tool.
pub open spec fn inputs(fs: Seq<FrameV>) -> Seq<JsonV>
    decreases fs.len(),
{
    if fs.len() == 0 {
        Seq::empty()
    } else {
        match fs.last() {
            FrameV::BlockDelta { delta, .. } => if delta.get("type"@) == Some(JsonV::Str("input_json_delta"@)) {
                inputs(fs.drop_last()).push(delta)
            } else {
                inputs(fs.drop_last())
            },
            _ => inputs(fs.drop_last()),
        }
    }
}

/// Whether a block and its input are those of a tool call of the upstream.
pub open spec fn is_use_of(block: JsonV, delta: JsonV, e: JsonV) -> bool {
    &&& block.get("name"@) == Some(JsonV::Str(members::text_or(e, "toolName"@, Seq::empty())))
    &&& e.get("toolCallId"@) matches Some(JsonV::Str(id)) ==> id.len() > 0 ==> block.get("id"@) == Some(JsonV::Str(id))
    &&& block.get("id"@) matches Some(JsonV::Str(id)) && id.len() > 0
    &&& delta.get("partial_json"@) matches Some(JsonV::Str(a)) && said::is_input_of(a, e)
}

proof fn lemma_sum(a: Seq<FrameV>, b: Seq<FrameV>)
    ensures
        text_of(a + b) == text_of(a) + text_of(b),
        thinking_of(a + b) == thinking_of(a) + thinking_of(b),
        uses(a + b) == uses(a) + uses(b),
        inputs(a + b) == inputs(a) + inputs(b),
    decreases b.len(),
{
    if b.len() == 0 {
        assert(a + b =~= a);
        assert(text_of(a) + text_of(b) =~= text_of(a));
        assert(thinking_of(a) + thinking_of(b) =~= thinking_of(a));
        assert(uses(a) + uses(b) =~= uses(a));
        assert(inputs(a) + inputs(b) =~= inputs(a));
    } else {
        assert((a + b).drop_last() =~= a + b.drop_last());
        assert((a + b).last() == b.last());
        lemma_sum(a, b.drop_last());
        assert(text_of(a + b) =~= text_of(a) + text_of(b));
        assert(thinking_of(a + b) =~= thinking_of(a) + thinking_of(b));
        assert(uses(a + b) =~= uses(a) + uses(b));
        assert(inputs(a + b) =~= inputs(a) + inputs(b));
    }
}

proof fn lemma_none(fs: Seq<FrameV>)
    requires
        fs.len() == 0,
    ensures
        text_of(fs) == Seq::<char>::empty(),
        thinking_of(fs) == Seq::<char>::empty(),
        uses(fs) == Seq::<JsonV>::empty(),
        inputs(fs) == Seq::<JsonV>::empty(),
{
}

/// What one frame tells.
proof fn lemma_one(f: FrameV)
    ensures
        text_of(seq![f]) == added(f, "text_delta"@, "text"@),
        thinking_of(seq![f]) == added(f, "thinking_delta"@, "thinking"@),
        uses(seq![f]) == (match f {
            FrameV::BlockStart { block, .. } => if block.get("type"@) == Some(JsonV::Str("tool_use"@)) {
                seq![block]
            } else {
                Seq::empty()
            },
            _ => Seq::empty(),
        }),
        inputs(seq![f]) == (match f {
            FrameV::BlockDelta { delta, .. } => if delta.get("type"@) == Some(JsonV::Str("input_json_delta"@)) {
                seq![delta]
            } else {
                Seq::empty()
            },
            _ => Seq::empty(),
        }),
{
    assert(seq![f].drop_last() =~= Seq::<FrameV>::empty());
    lemma_none(Seq::empty());
    assert(text_of(seq![f]) =~= added(f, "text_delta"@, "text"@));
    assert(thinking_of(seq![f]) =~= added(f, "thinking_delta"@, "thinking"@));
}

/// Whether frames tell neither a text nor thinking nor a call.
spec fn is_mute(fs: Seq<FrameV>) -> bool {
    text_of(fs).len() == 0 && thinking_of(fs).len() == 0 && uses(fs).len() == 0 && inputs(fs).len() == 0
}

proof fn lemma_deltas(t: Seq<char>)
    ensures
        added(FrameV::BlockDelta { index: 0, delta: anthropic::signature_delta(t) }, "text_delta"@, "text"@).len()
            == 0,
        ({
            let x = anthropic::text_delta(false, t);
            &&& x.get("type"@) == Some(JsonV::Str("text_delta"@))
            &&& x.get("text"@) == Some(JsonV::Str(t))
        }),
        ({
            let x = anthropic::text_delta(true, t);
            &&& x.get("type"@) == Some(JsonV::Str("thinking_delta"@))
            &&& x.get("thinking"@) == Some(JsonV::Str(t))
        }),
        anthropic::signature_delta(t).get("type"@) == Some(JsonV::Str("signature_delta"@)),
        anthropic::signature_delta(t).get("signature"@) == Some(JsonV::Str(errors::signature_of(t))),
        anthropic::blank_block(true).get("type"@) == Some(JsonV::Str("thinking"@)),
        anthropic::blank_block(false).get("type"@) == Some(JsonV::Str("text"@)),
        anthropic::blank_block(true).get("thinking"@) == Some(JsonV::Str(Seq::empty())),
        anthropic::blank_block(false).get("text"@) == Some(JsonV::Str(Seq::empty())),
        "text_delta"@ != "thinking_delta"@,
        "text_delta"@ != "signature_delta"@,
        "text_delta"@ != "input_json_delta"@,
        "thinking_delta"@ != "signature_delta"@,
        "thinking_delta"@ != "input_json_delta"@,
        "signature_delta"@ != "input_json_delta"@,
        "thinking"@ != "tool_use"@,
        "text"@ != "tool_use"@,
{
    broadcast use members::group_reading;

    reveal_strlit("type");
    reveal_strlit("text");
    reveal_strlit("thinking");
    reveal_strlit("signature");
    reveal_strlit("text_delta");
    reveal_strlit("thinking_delta");
    reveal_strlit("signature_delta");
    reveal_strlit("input_json_delta");
    reveal_strlit("tool_use");
    assert("type"@.len() == 4 && "text"@.len() == 4 && "thinking"@.len() == 8 && "signature"@.len() == 9);
    assert("text_delta"@.len() == 10 && "thinking_delta"@.len() == 14 && "signature_delta"@.len() == 15);
    assert("input_json_delta"@.len() == 16);
    assert("tool_use"@.len() == 8 && "text"@[1] == 'e' && "thinking"@[1] == 'h' && "tool_use"@[1] == 'o');
    assert("type"@[1] == 'y');
    reveal_strlit("");
    assert(""@ =~= Seq::<char>::empty());
}

proof fn lemma_close_mute(t: AnthropicV)
    ensures
        is_mute(t.close_frames()),
{
    lemma_deltas(t.current_thinking_text);
    if let Some(b) = t.open {
        let fs = t.close_frames();
        let stop = FrameV::BlockStop { index: b.index as int };
        lemma_one(stop);
        if b.thinking {
            let sig = FrameV::BlockDelta {
                index: b.index as int,
                delta: anthropic::signature_delta(t.current_thinking_text),
            };
            lemma_one(sig);
            assert(fs =~= seq![sig] + seq![stop]);
            lemma_sum(seq![sig], seq![stop]);
        } else {
            assert(fs =~= seq![stop]);
        }
    } else {
        lemma_none(t.close_frames());
    }
}

proof fn lemma_open_mute(t: AnthropicV, thinking: bool)
    ensures
        is_mute(t.open_frames(thinking)),
{
    lemma_deltas(Seq::empty());
    if t.is_open(thinking) {
        lemma_none(t.open_frames(thinking));
    } else {
        lemma_close_mute(t);
        let f = FrameV::BlockStart { index: t.next_block_index as int, block: anthropic::blank_block(thinking) };
        lemma_one(f);
        assert(t.open_frames(thinking) =~= t.close_frames() + seq![f]);
        lemma_sum(t.close_frames(), seq![f]);
    }
}

proof fn lemma_frames_in_two(a: Seq<FrameV>, b: Seq<FrameV>)
    ensures
        anthropic::frames_in(seq![a, b]) == a + b,
{
    let p = seq![a, b];
    assert(p.drop_last() =~= seq![a]);
    assert(seq![a].drop_last() =~= Seq::<Seq<FrameV>>::empty());
    assert(anthropic::frames_in(Seq::empty()) =~= Seq::<FrameV>::empty());
    assert(anthropic::frames_in(seq![a]) =~= a);
}

proof fn lemma_frames_in_one(a: Seq<FrameV>)
    ensures
        anthropic::frames_in(seq![a]) == a,
        anthropic::frames_in(Seq::empty()) == Seq::<FrameV>::empty(),
{
    assert(seq![a].drop_last() =~= Seq::<Seq<FrameV>>::empty());
    assert(anthropic::frames_in(Seq::empty()) =~= Seq::<FrameV>::empty());
    assert(anthropic::frames_in(seq![a]) =~= a);
}

proof fn lemma_frames_in_sum(a: Seq<Seq<FrameV>>, b: Seq<Seq<FrameV>>)
    ensures
        anthropic::frames_in(a + b) == anthropic::frames_in(a) + anthropic::frames_in(b),
    decreases b.len(),
{
    if b.len() == 0 {
        assert(a + b =~= a);
        assert(anthropic::frames_in(a) + anthropic::frames_in(b) =~= anthropic::frames_in(a));
    } else {
        assert((a + b).drop_last() =~= a + b.drop_last());
        lemma_frames_in_sum(a, b.drop_last());
        assert(anthropic::frames_in(a + b) =~= anthropic::frames_in(a) + anthropic::frames_in(b));
    }
}

proof fn lemma_call_members(id: JsonV, name: JsonV, arguments: JsonV)
    ensures
        ({
            let block = JsonV::obj().with("type"@, JsonV::Str("tool_use"@)).with("id"@, id).with("name"@, name).with(
                "input"@,
                JsonV::obj(),
            );
            let delta = JsonV::obj().with("type"@, JsonV::Str("input_json_delta"@)).with("partial_json"@, arguments);
            &&& block.get("type"@) == Some(JsonV::Str("tool_use"@))
            &&& block.get("id"@) == Some(id)
            &&& block.get("name"@) == Some(name)
            &&& block.get("input"@) == Some(JsonV::obj())
            &&& delta.get("type"@) == Some(JsonV::Str("input_json_delta"@))
            &&& delta.get("partial_json"@) == Some(arguments)
        }),
{
    broadcast use members::group_reading;

    reveal_strlit("type");
    reveal_strlit("id");
    reveal_strlit("name");
    reveal_strlit("input");
    reveal_strlit("partial_json");
    assert("type"@.len() == 4 && "id"@.len() == 2 && "name"@.len() == 4 && "input"@.len() == 5);
    assert("partial_json"@.len() == 12 && "name"@[0] == 'n' && "type"@[0] == 't');
}

proof fn lemma_call(t: AnthropicV, e: JsonV, uuid: Seq<char>)
    ensures
        ({
            let fs = anthropic::frames_in(t.on_call(e, uuid).pieces);
            &&& text_of(fs).len() == 0 && thinking_of(fs).len() == 0
            &&& uses(fs).len() == 1 && inputs(fs).len() == 1
            &&& is_use_of(uses(fs)[0], inputs(fs)[0], e)
        }),
{
    reveal_strlit("");
    reveal_strlit("toolu_");
    assert(""@ =~= Seq::<char>::empty());
    let id = match e.get_nonempty("toolCallId"@) {
        Some(id) => id,
        None => "toolu_"@ + util::short_id_text(uuid, 12),
    };
    let name = JsonV::Str(e.str_or("toolName"@, ""@));
    let arguments = JsonV::Str(events::arguments_of(e));
    lemma_call_members(JsonV::Str(id), name, arguments);
    lemma_deltas(Seq::empty());
    let index = t.next_block_index as int;
    let block = JsonV::obj().with("type"@, JsonV::Str("tool_use"@)).with("id"@, JsonV::Str(id)).with("name"@, name).with(
        "input"@,
        JsonV::obj(),
    );
    let delta = JsonV::obj().with("type"@, JsonV::Str("input_json_delta"@)).with("partial_json"@, arguments);
    let a = FrameV::BlockStart { index, block };
    let b = FrameV::BlockDelta { index, delta };
    let c = FrameV::BlockStop { index };
    let before = if t.open is Some {
        seq![t.close_frames()]
    } else {
        Seq::empty()
    };
    lemma_close_mute(t);
    lemma_frames_in_one(t.close_frames());
    lemma_none(Seq::empty());
    assert(is_mute(anthropic::frames_in(before)));
    let rest = seq![seq![a], seq![b]] + seq![seq![c]];
    assert(t.on_call(e, uuid).pieces =~= before + rest);
    lemma_frames_in_sum(before, rest);
    lemma_frames_in_sum(seq![seq![a], seq![b]], seq![seq![c]]);
    lemma_frames_in_two(seq![a], seq![b]);
    lemma_frames_in_one(seq![c]);
    lemma_sum(anthropic::frames_in(before), anthropic::frames_in(rest));
    lemma_sum(seq![a] + seq![b], seq![c]);
    lemma_sum(seq![a], seq![b]);
    lemma_one(a);
    lemma_one(b);
    lemma_one(c);
    said::inputs_are_handed_on(e);
    let fs = anthropic::frames_in(t.on_call(e, uuid).pieces);
    assert(uses(fs) =~= seq![block]);
    assert(inputs(fs) =~= seq![delta]);
}

proof fn lemma_step(t: AnthropicV, e: JsonV, uuid: Seq<char>)
    requires
        e.get("type"@) matches Some(JsonV::Str(_)),
    ensures
        ({
            let fs = anthropic::frames_in(t.step(e, uuid).pieces);
            let ty = e.get("type"@);
            &&& text_of(fs) == (if ty == Some(JsonV::Str("text-delta"@)) {
                members::plain(e.get("text"@))
            } else {
                Seq::empty()
            })
            &&& thinking_of(fs) == (if ty == Some(JsonV::Str("reasoning-delta"@)) {
                members::plain(e.get("text"@))
            } else {
                Seq::empty()
            })
            &&& ty == Some(JsonV::Str("tool-call"@)) ==> uses(fs).len() == 1 && inputs(fs).len() == 1 && is_use_of(
                uses(fs)[0],
                inputs(fs)[0],
                e,
            )
            &&& ty != Some(JsonV::Str("tool-call"@)) ==> uses(fs).len() == 0 && inputs(fs).len() == 0
        }),
{
    said::lemma_types();
    said::event_texts_are_as_said(e);
    let ty = events::type_of(e);
    let s = AnthropicV { last_cc_event: ty, ..t };
    let x = events::event_text_of(e);
    let fs = anthropic::frames_in(t.step(e, uuid).pieces);
    lemma_frames_in_one(Seq::empty());
    lemma_none(Seq::empty());
    lemma_deltas(x);
    if ty == "reasoning-delta"@ || ty == "text-delta"@ {
        let thinking = ty == "reasoning-delta"@;
        if thinking && x.len() == 0 {
            assert(x =~= Seq::<char>::empty());
            assert(fs =~= Seq::<FrameV>::empty());
        } else {
            let d = FrameV::BlockDelta {
                index: s.opened(thinking).open->0.index as int,
                delta: anthropic::text_delta(thinking, x),
            };
            lemma_open_mute(s, thinking);
            lemma_frames_in_two(s.open_frames(thinking), seq![d]);
            lemma_sum(s.open_frames(thinking), seq![d]);
            lemma_one(d);
            assert(fs == s.open_frames(thinking) + seq![d]);
            if thinking {
                assert(thinking_of(fs) =~= x);
                assert(text_of(fs) =~= Seq::<char>::empty());
            } else {
                assert(text_of(fs) =~= x);
                assert(thinking_of(fs) =~= Seq::<char>::empty());
            }
        }
    } else if ty == "tool-call"@ {
        lemma_call(s, e, uuid);
        assert(text_of(fs) =~= Seq::<char>::empty());
        assert(thinking_of(fs) =~= Seq::<char>::empty());
    } else if ty == "finish-step"@ || ty == "finish"@ {
    } else if ty == "error"@ {
        let f = FrameV::Error { error: anthropic::error_member(errors::event_error(e)), retry_after: None };
        lemma_frames_in_one(seq![f]);
        lemma_one(f);
    }
}

/// Over any lines, what a client joins of the text is, to the character, what the text events
/// say, and what it joins of the thinking what the reasoning events say; and each tool call of
/// the upstream is a block that uses the tool, in order, with its identifier, name and input.
pub proof fn clients_read_what_is_said(t: AnthropicV, lines: Seq<Seq<char>>, uuids: Seq<Seq<char>>)
    ensures
        ({
            let fs = anthropic::frames_in(t.lines(lines, uuids).pieces);
            let calls = said::calls_by(lines, false);
            &&& text_of(fs) == said::shown_by(lines, false, "text-delta"@)
            &&& thinking_of(fs) == said::shown_by(lines, false, "reasoning-delta"@)
            &&& uses(fs).len() == calls.len()
            &&& inputs(fs).len() == calls.len()
            &&& forall|i: int| 0 <= i < calls.len() ==> is_use_of(#[trigger] uses(fs)[i], inputs(fs)[i], calls[i])
        }),
    decreases lines.len(),
{
    lemma_frames_in_one(Seq::empty());
    lemma_none(Seq::empty());
    if lines.len() > 0 {
        clients_read_what_is_said(t, lines.drop_last(), uuids);
        let before = t.lines(lines.drop_last(), uuids);
        let u = uuids[lines.len() - 1];
        let last = before.next.line(lines.last(), u);
        lemma_frames_in_sum(before.pieces, last.pieces);
        lemma_sum(anthropic::frames_in(before.pieces), anthropic::frames_in(last.pieces));
        said::lemma_types();
        said::other_lines_are_none(lines.last(), false);
        if let Some(e) = events::event_in(lines.last(), false) {
            lemma_step(before.next, e, u);
        }
    }
}

/// The end of a message adds nothing to what was said.
pub proof fn ends_add_nothing(t: AnthropicV)
    ensures
        ({
            let fs = anthropic::frames_in(t.finished().pieces);
            text_of(fs).len() == 0 && thinking_of(fs).len() == 0 && uses(fs).len() == 0 && inputs(fs).len() == 0
        }),
{
    lemma_frames_in_one(t.close_frames());
    lemma_none(Seq::empty());
    if !t.has_error {
        let before = if t.open is Some {
            seq![t.close_frames()]
        } else {
            Seq::empty()
        };
        lemma_close_mute(t);
        let fs = t.last_frames();
        let singles = fs.map_values(|f: FrameV| seq![f]);
        lemma_frames_in_sum(before, singles);
        lemma_one(fs[0]);
        lemma_one(fs[1]);
        if fs.len() == 1 {
            assert(singles =~= seq![seq![fs[0]]]);
            lemma_frames_in_one(seq![fs[0]]);
        } else {
            assert(singles =~= seq![seq![fs[0]], seq![fs[1]]]);
            lemma_frames_in_two(seq![fs[0]], seq![fs[1]]);
            lemma_sum(seq![fs[0]], seq![fs[1]]);
        }
        lemma_sum(anthropic::frames_in(before), anthropic::frames_in(singles));
    } else {
        assert(t.finished().pieces =~= Seq::<Seq<FrameV>>::empty());
    }
}

/// Whether a text is one event: its name, and data that say the same name as their type.
pub open spec fn is_event(t: Seq<char>, name: Seq<char>, data: JsonV) -> bool {
    &&& t == "event: "@ + name + "\ndata: "@ + json::json_text(data) + "\n\n"@
    &&& data.get("type"@) == Some(JsonV::Str(name))
}

/// A frame is sent as one event that holds all that the frame says.
pub proof fn frames_are_sent_whole(f: FrameV)
    ensures
        match f {
            FrameV::BlockStart { index, block } => exists|d: JsonV| #[trigger]
                is_event(f.text(), "content_block_start"@, d) && d.get("index"@) == Some(json::int_json(index))
                    && d.get("content_block"@) == Some(block),
            FrameV::BlockDelta { index, delta } => exists|d: JsonV| #[trigger]
                is_event(f.text(), "content_block_delta"@, d) && d.get("index"@) == Some(json::int_json(index))
                    && d.get("delta"@) == Some(delta),
            FrameV::BlockStop { index } => exists|d: JsonV| #[trigger]
                is_event(f.text(), "content_block_stop"@, d) && d.get("index"@) == Some(json::int_json(index)),
            FrameV::Error { error, retry_after } => exists|d: JsonV| #[trigger]
                is_event(f.text(), "error"@, d) && d.get("error"@) == Some(error) && (match retry_after {
                    Some(n) => d.get("retry_after"@) == Some(json::int_json(n as int)),
                    None => d.get("retry_after"@) is None,
                }),
            FrameV::MessageDelta { stop_reason, usage } => exists|d: JsonV| #[trigger]
                is_event(f.text(), "message_delta"@, d) && members::inner(d, "delta"@, "stop_reason"@) == Some(
                    JsonV::Str(stop_reason),
                ) && d.get("usage"@) == Some(usage),
            FrameV::MessageStop => exists|d: JsonV| #[trigger] is_event(f.text(), "message_stop"@, d),
        },
{
    broadcast use members::group_reading;

    reveal_strlit("type");
    reveal_strlit("index");
    reveal_strlit("content_block");
    reveal_strlit("delta");
    reveal_strlit("error");
    reveal_strlit("retry_after");
    reveal_strlit("stop_reason");
    reveal_strlit("usage");
    assert("type"@.len() == 4 && "index"@.len() == 5 && "content_block"@.len() == 13 && "delta"@.len() == 5);
    assert("error"@.len() == 5 && "retry_after"@.len() == 11 && "stop_reason"@.len() == 11 && "usage"@.len() == 5);
    assert("delta"@[0] == 'd' && "error"@[0] == 'e' && "index"@[0] == 'i' && "retry_after"@[0] == 'r');
    assert("stop_reason"@[0] == 's' && "usage"@[0] == 'u');
    match f {
        FrameV::BlockStart { index, block } => {
            let d = anthropic::block_start_json(index, block);
            assert(is_event(f.text(), "content_block_start"@, d));
        },
        FrameV::BlockDelta { index, delta } => {
            let d = anthropic::block_delta_json(index, delta);
            assert(is_event(f.text(), "content_block_delta"@, d));
        },
        FrameV::BlockStop { index } => {
            let d = anthropic::block_stop_json(index);
            assert(is_event(f.text(), "content_block_stop"@, d));
        },
        FrameV::Error { error, retry_after } => {
            let d = anthropic::error_json(error, retry_after);
            assert(is_event(f.text(), "error"@, d));
        },
        FrameV::MessageDelta { stop_reason, usage } => {
            let d = anthropic::message_delta_json(stop_reason, usage);
            assert(is_event(f.text(), "message_delta"@, d));
        },
        FrameV::MessageStop => {
            let d = JsonV::obj().with("type"@, JsonV::Str("message_stop"@));
            assert(is_event(f.text(), "message_stop"@, d));
        },
    }
}

/// Frames of one piece are sent one behind the other, and pieces one by one.
pub proof fn frames_are_sent_in_order(fs: Seq<FrameV>, f: FrameV, pieces: Seq<Seq<FrameV>>)
    ensures
        anthropic::frames_text(Seq::empty()).len() == 0,
        anthropic::frames_text(fs.push(f)) == anthropic::frames_text(fs) + f.text(),
        anthropic::piece_texts(pieces).len() == pieces.len(),
        forall|i: int|
            0 <= i < pieces.len() ==> #[trigger] anthropic::piece_texts(pieces)[i] == anthropic::frames_text(pieces[i]),
{
    assert(fs.push(f).drop_last() =~= fs);
}

/// A message begins with an event that names its identifier, its model and the role.
pub proof fn messages_begin(t: AnthropicV)
    ensures
        exists|d: JsonV| #[trigger]
            is_event(t.message_start_text(), "message_start"@, d) && (d.get("message"@) matches Some(m) && m.get("id"@)
                == Some(JsonV::Str(t.message_id)) && m.get("model"@) == Some(JsonV::Str(t.model)) && m.get("role"@)
                == Some(JsonV::Str("assistant"@)) && m.get("type"@) == Some(JsonV::Str("message"@)) && m.get(
                "content"@,
            ) == Some(JsonV::Array(Seq::empty()))),
{
    broadcast use members::group_reading;

    reveal_strlit("type");
    reveal_strlit("message");
    reveal_strlit("id");
    reveal_strlit("role");
    reveal_strlit("content");
    reveal_strlit("model");
    reveal_strlit("usage");
    assert("type"@.len() == 4 && "message"@.len() == 7 && "id"@.len() == 2 && "role"@.len() == 4);
    assert("content"@.len() == 7 && "model"@.len() == 5 && "usage"@.len() == 5 && "content"@[0] == 'c');
    assert("message"@[0] == 'm' && "model"@[0] == 'm' && "role"@[0] == 'r' && "type"@[0] == 't');
    assert("usage"@[0] == 'u');
    let m = JsonV::obj().with("id"@, JsonV::Str(t.message_id)).with("type"@, JsonV::Str("message"@)).with(
        "role"@,
        JsonV::Str("assistant"@),
    ).with("content"@, JsonV::Array(Seq::empty())).with("model"@, JsonV::Str(t.model)).with(
        "usage"@,
        JsonV::obj().with("input_tokens"@, json::int_json(0)).with("output_tokens"@, json::int_json(0)),
    );
    let d = JsonV::obj().with("type"@, JsonV::Str("message_start"@)).with("message"@, m);
    assert(is_event(t.message_start_text(), "message_start"@, d));
}

/// A message that came to its end with output is told to have ended so: with the reason of the
/// upstream, and with the counts that the translation holds.
pub proof fn ends_tell_reason_and_usage(t: AnthropicV)
    requires
        t.saw_finish,
        t.finish_norm != Some("upstream_error"@),
        t.output_tokens != 0,
    ensures
        t.last_frames().len() == 2,
        t.last_frames()[1] is MessageStop,
        t.last_frames()[0] matches FrameV::MessageDelta { stop_reason, usage } && stop_reason == (match t.stop_reason {
            Some(r) => r,
            None => "end_turn"@,
        }) && usage.get("output_tokens"@) == Some(json::int_json(t.output_tokens as int)) && usage.get(
            "cache_read_input_tokens"@,
        ) == Some(json::int_json(t.cached_input_tokens as int)) && usage.get("cache_creation_input_tokens"@) == Some(
            json::int_json(t.cache_write_tokens as int),
        ) && (t.no_cache_tokens >= 0 ==> usage.get("input_tokens"@) == Some(json::int_json(t.no_cache_tokens as int)))
            && (t.no_cache_tokens < 0 && t.cached_input_tokens >= 0 && t.cache_write_tokens >= 0 && t.input_tokens
            >= t.cached_input_tokens + t.cache_write_tokens ==> usage.get("input_tokens"@) == Some(
            json::int_json(t.input_tokens - t.cached_input_tokens - t.cache_write_tokens),
        )),
{
    broadcast use members::group_reading;

    reveal_strlit("output_tokens");
    reveal_strlit("cache_read_input_tokens");
    reveal_strlit("cache_creation_input_tokens");
    reveal_strlit("input_tokens");
    assert("output_tokens"@.len() == 13 && "cache_read_input_tokens"@.len() == 23);
    assert("cache_creation_input_tokens"@.len() == 27 && "input_tokens"@.len() == 12);
}

} // verus!
