//! What an upstream line says.

use vstd::prelude::*;
use crate::json;
use crate::json::JsonV;
use crate::laws::members;
use crate::text;
use crate::translate::events;
use crate::util;

verus! {

/// Whether a text is white space alone.
pub open spec fn is_blank(s: Seq<char>) -> bool {
    forall|i: int| 0 <= i < s.len() ==> text::is_space(#[trigger] s[i])
}

proof fn lemma_front(a: Seq<char>, t: Seq<char>)
    requires
        is_blank(a),
        t.len() == 0 || !text::is_space(t[0]),
    ensures
        text::trim_front(a + t) == t,
    decreases a.len(),
{
    if a.len() == 0 {
        assert(a + t =~= t);
    } else {
        assert((a + t)[0] == a[0]);
        assert((a + t).skip(1) =~= a.skip(1) + t);
        assert forall|i: int| 0 <= i < a.skip(1).len() implies text::is_space(#[trigger] a.skip(1)[i]) by {
            assert(a.skip(1)[i] == a[i + 1]);
        }
        lemma_front(a.skip(1), t);
    }
}

proof fn lemma_back(t: Seq<char>, b: Seq<char>)
    requires
        is_blank(b),
        t.len() == 0 || !text::is_space(t.last()),
    ensures
        text::trim_back(t + b) == t,
    decreases b.len(),
{
    if b.len() == 0 {
        assert(t + b =~= t);
    } else {
        assert((t + b).last() == b[b.len() - 1]);
        assert((t + b).drop_last() =~= t + b.drop_last());
        assert forall|i: int| 0 <= i < b.drop_last().len() implies text::is_space(#[trigger] b.drop_last()[i]) by {
            assert(b.drop_last()[i] == b[i]);
        }
        lemma_back(t, b.drop_last());
    }
}

/// White space around a text, and that alone, is taken away.
pub proof fn white_space_is_trimmed(a: Seq<char>, t: Seq<char>, b: Seq<char>)
    requires
        is_blank(a),
        is_blank(b),
        t.len() > 0 ==> !text::is_space(t[0]) && !text::is_space(t.last()),
    ensures
        text::trimmed(a + t + b) == t,
{
    if t.len() == 0 {
        let s = a + t + b;
        assert forall|i: int| 0 <= i < s.len() implies text::is_space(#[trigger] s[i]) by {
            if i < a.len() {
                assert(s[i] == a[i]);
            } else {
                assert(s[i] == b[i - a.len()]);
            }
        }
        assert(s =~= s + Seq::<char>::empty());
        lemma_front(s, Seq::empty());
    } else {
        assert(a + t + b =~= a + (t + b));
        assert((t + b)[0] == t[0]);
        lemma_front(a, t + b);
        lemma_back(t, b);
    }
}

/// A line that holds a JSON object with a type is that event, whatever white space is around it.
pub proof fn lines_are_events(a: Seq<char>, t: Seq<char>, b: Seq<char>, e: JsonV, ty: Seq<char>, comments: bool)
    requires
        is_blank(a),
        is_blank(b),
        t.len() > 0,
        !text::is_space(t[0]) && !text::is_space(t.last()),
        t != "[DONE]"@,
        comments ==> t[0] != ':',
        json::json_parsed(t) == Some(e),
        e.get("type"@) == Some(JsonV::Str(ty)),
    ensures
        events::event_in(a + t + b, comments) == Some(e),
        events::type_of(e) == ty,
{
    white_space_is_trimmed(a, t, b);
    reveal_strlit(":");
    if text::has_prefix(t, ":"@) {
        assert(t.take(1)[0] == ':');
    }
}

/// A line without an event says nothing: a blank one, an end mark, a comment where there are
/// comments, and what is no JSON or has no type.
pub proof fn other_lines_are_none(line: Seq<char>, comments: bool)
    ensures
        is_blank(line) ==> events::event_in(line, comments) is None,
        line == "[DONE]"@ ==> events::event_in(line, comments) is None,
        comments && line.len() > 0 && line[0] == ':' ==> events::event_in(line, comments) is None,
        json::json_parsed(text::trimmed(line)) is None ==> events::event_in(line, comments) is None,
        events::event_in(line, comments) matches Some(e) ==> json::json_parsed(text::trimmed(line)) == Some(e)
            && (e.get("type"@) matches Some(JsonV::Str(ty)) && events::type_of(e) == ty),
{
    if is_blank(line) {
        assert(line =~= line + Seq::<char>::empty() + Seq::<char>::empty());
        white_space_is_trimmed(line, Seq::empty(), Seq::empty());
    }
    reveal_strlit("[DONE]");
    reveal_strlit(":");
    let done = "[DONE]"@;
    assert(done[0] == '[' && done.last() == ']');
    assert(done =~= Seq::<char>::empty() + done + Seq::<char>::empty());
    white_space_is_trimmed(Seq::empty(), done, Seq::empty());
    if line.len() > 0 && line[0] == ':' {
        assert(text::trim_front(line) == line);
        lemma_keeps_front(line);
        let t = text::trimmed(line);
        assert(t.take(1) =~= ":"@);
    }
}

proof fn lemma_keeps_front(s: Seq<char>)
    requires
        s.len() > 0,
        !text::is_space(s[0]),
    ensures
        text::trim_back(s).len() > 0,
        text::trim_back(s)[0] == s[0],
    decreases s.len(),
{
    if text::is_space(s.last()) {
        assert(s.drop_last()[0] == s[0]);
        lemma_keeps_front(s.drop_last());
    }
}

/// Whether a value counts as true: not null, not `false`, not the empty text, and no zero.
pub open spec fn counts(j: JsonV) -> bool {
    &&& j != JsonV::Null
    &&& j != JsonV::Bool(false)
    &&& !(j matches JsonV::Str(s) && s.len() == 0)
    &&& !(j matches JsonV::Number(n) && crate::float::float_is_zero(crate::float::float_of_number(n)))
}

/// What counts is what the library takes for true.
pub proof fn what_counts_is_true(j: JsonV)
    ensures
        util::is_truthy(j) == counts(j),
{
}

/// The text that a text event says: that of its member `text`, and where that says nothing the
/// text in its member `delta`.
pub open spec fn said(e: JsonV) -> Seq<char> {
    if members::plain(e.get("text"@)).len() > 0 {
        members::plain(e.get("text"@))
    } else {
        members::text_or(e, "delta"@, Seq::empty())
    }
}

/// The text of an event is what it says, to the character.
pub proof fn event_texts_are_as_said(e: JsonV)
    ensures
        events::delta_text_of(e) == said(e),
        events::event_text_of(e) == members::plain(e.get("text"@)),
        e.get("text"@) matches Some(JsonV::Str(s)) ==> events::event_text_of(e) == s,
        e.get("text"@) matches Some(JsonV::Str(s)) ==> s.len() > 0 ==> events::delta_text_of(e) == s,
{
    reveal_strlit("");
    assert(""@ =~= Seq::<char>::empty());
}

/// Whether a text is what a tool call hands to its tool: an input that is a text as it stands,
/// any other that counts as true as its JSON text, and else an empty object.
pub open spec fn is_input_of(t: Seq<char>, e: JsonV) -> bool {
    match e.get("input"@) {
        Some(JsonV::Str(s)) => t == s,
        Some(j) => if counts(j) {
            t == json::json_text(j)
        } else {
            t == "{}"@
        },
        None => t == "{}"@,
    }
}

/// A tool call hands on the input that the upstream gives it.
pub proof fn inputs_are_handed_on(e: JsonV)
    ensures
        is_input_of(events::arguments_of(e), e),
{
    if let Some(j) = e.get("input"@) {
        what_counts_is_true(j);
    }
}

/// The usage of a finish event is its total, and without one that of its step.
pub proof fn totals_come_first(e: JsonV)
    ensures
        e.get("totalUsage"@) matches Some(u) ==> u is Object ==> events::usage_in(e) == Some(u),
        !(e.get("totalUsage"@) matches Some(JsonV::Object(_))) ==> (e.get("usage"@) matches Some(u) ==> u is Object
            ==> events::usage_in(e) == Some(u)),
        events::usage_in(e) matches Some(u) ==> u is Object && (e.get("totalUsage"@) == Some(u) || e.get("usage"@)
            == Some(u)),
{
}

/// What lines say in the events of a type.
pub open spec fn said_in(line: Seq<char>, comments: bool, ty: Seq<char>) -> Seq<char> {
    match events::event_in(line, comments) {
        Some(e) => if e.get("type"@) == Some(JsonV::Str(ty)) {
            if ty == "text-delta"@ {
                said(e)
            } else {
                members::plain(e.get("text"@))
            }
        } else {
            Seq::empty()
        },
        None => Seq::empty(),
    }
}

/// What lines say in the events of a type, put together.
pub open spec fn said_by(lines: Seq<Seq<char>>, comments: bool, ty: Seq<char>) -> Seq<char>
    decreases lines.len(),
{
    if lines.len() == 0 {
        Seq::empty()
    } else {
        said_by(lines.drop_last(), comments, ty) + said_in(lines.last(), comments, ty)
    }
}

/// What lines show in the member `text` of the events of a type, put together.
pub open spec fn shown_by(lines: Seq<Seq<char>>, comments: bool, ty: Seq<char>) -> Seq<char>
    decreases lines.len(),
{
    if lines.len() == 0 {
        Seq::empty()
    } else {
        shown_by(lines.drop_last(), comments, ty) + (match events::event_in(lines.last(), comments) {
            Some(e) => if e.get("type"@) == Some(JsonV::Str(ty)) {
                members::plain(e.get("text"@))
            } else {
                Seq::empty()
            },
            None => Seq::empty(),
        })
    }
}

/// The tool calls in lines.
pub open spec fn calls_by(lines: Seq<Seq<char>>, comments: bool) -> Seq<JsonV>
    decreases lines.len(),
{
    if lines.len() == 0 {
        Seq::empty()
    } else {
        let before = calls_by(lines.drop_last(), comments);
        match events::event_in(lines.last(), comments) {
            Some(e) => if e.get("type"@) == Some(JsonV::Str("tool-call"@)) {
                before.push(e)
            } else {
                before
            },
            None => before,
        }
    }
}

/// The types of events are told apart.
pub proof fn lemma_types()
    ensures
        "text-delta"@ != "reasoning-delta"@,
        "text-delta"@ != "tool-call"@,
        "text-delta"@ != "finish-step"@,
        "text-delta"@ != "finish"@,
        "text-delta"@ != "error"@,
        "reasoning-delta"@ != "tool-call"@,
        "reasoning-delta"@ != "finish-step"@,
        "reasoning-delta"@ != "finish"@,
        "reasoning-delta"@ != "error"@,
        "tool-call"@ != "finish-step"@,
        "tool-call"@ != "finish"@,
        "tool-call"@ != "error"@,
        "finish-step"@ != "finish"@,
        "finish-step"@ != "error"@,
        "finish"@ != "error"@,
{
    reveal_strlit("text-delta");
    reveal_strlit("reasoning-delta");
    reveal_strlit("tool-call");
    reveal_strlit("finish-step");
    reveal_strlit("finish");
    reveal_strlit("error");
    assert("text-delta"@.len() == 10 && "reasoning-delta"@.len() == 15 && "tool-call"@.len() == 9);
    assert("finish-step"@.len() == 11);
    assert("finish"@.len() == 6 && "error"@.len() == 5);
}

} // verus!
