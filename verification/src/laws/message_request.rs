//! An Anthropic request asks the same as a chat request.

use vstd::prelude::*;
use crate::cc;
use crate::config;
use crate::json;
use crate::json::JsonV;
use crate::laws::events as said;
use crate::laws::members;
use crate::laws::numbers;
use crate::laws::upstream_params;
use crate::laws::upstream_request;
use crate::text;
use crate::translate::anthropic_request;
use crate::util;

verus! {

/// The blocks of a type.
pub open spec fn of_type(blocks: Seq<JsonV>, ty: Seq<char>) -> Seq<JsonV> {
    blocks.filter(|b: JsonV| b.get("type"@) == Some(JsonV::Str(ty)))
}

/// The texts in a member of blocks.
pub open spec fn texts_in(blocks: Seq<JsonV>, k: Seq<char>) -> Seq<Seq<char>> {
    blocks.map_values(|b: JsonV| members::text_or(b, k, Seq::empty()))
}

/// Whether a part is a text block of the client: its text, and its cache breakpoint.
pub open spec fn is_text_of(p: JsonV, b: JsonV) -> bool {
    &&& p.get("type"@) == Some(JsonV::Str("text"@))
    &&& p.get("text"@) == Some(JsonV::Str(members::text_or(b, "text"@, Seq::empty())))
    &&& p.get("cache_control"@) == upstream_params::named(b, "cache_control"@)
}

/// Whether a list of parts are text blocks of the client.
pub open spec fn are_texts_of(ps: Seq<JsonV>, bs: Seq<JsonV>) -> bool {
    ps.len() == bs.len() && forall|i: int| 0 <= i < ps.len() ==> is_text_of(#[trigger] ps[i], bs[i])
}

/// What content says: a text, or the texts of its parts.
pub open spec fn words_of(content: JsonV) -> Seq<char> {
    match content {
        JsonV::Str(s) => s,
        JsonV::Array(ps) => members::run_on(texts_in(ps, "text"@)),
        _ => Seq::empty(),
    }
}

proof fn lemma_empty()
    ensures
        ""@ == Seq::<char>::empty(),
{
    reveal_strlit("");
    assert(""@ =~= Seq::<char>::empty());
}

proof fn lemma_carried(b: JsonV)
    ensures
        is_text_of(anthropic_request::carried_text(b), b),
{
    broadcast use members::group_reading;

    lemma_empty();
    reveal_strlit("type");
    reveal_strlit("text");
    reveal_strlit("cache_control");
    assert("type"@.len() == 4 && "text"@.len() == 4 && "cache_control"@.len() == 13 && "text"@[1] == 'e');
    assert("type"@[1] == 'y');
    let a = cc::text_part(b.str_or("text"@, ""@));
    assert(a is Object && a.get("type"@) == Some(JsonV::Str("text"@)));
    assert(a.get("cache_control"@) is None);
    assert(a.get("text"@) == Some(JsonV::Str(b.str_or("text"@, ""@))));
}

proof fn lemma_of_type(blocks: Seq<JsonV>, ty: Seq<char>)
    requires
        blocks.len() > 0,
    ensures
        of_type(blocks, ty) == (if blocks.last().get("type"@) == Some(JsonV::Str(ty)) {
            of_type(blocks.drop_last(), ty).push(blocks.last())
        } else {
            of_type(blocks.drop_last(), ty)
        }),
{
    reveal(Seq::filter);
}

proof fn lemma_carried_texts(blocks: Seq<JsonV>)
    ensures
        are_texts_of(anthropic_request::carried_texts(blocks), of_type(blocks, "text"@)),
    decreases blocks.len(),
{
    reveal(Seq::filter);
    if blocks.len() > 0 {
        lemma_carried_texts(blocks.drop_last());
        lemma_of_type(blocks, "text"@);
        lemma_carried(blocks.last());
    }
}

proof fn lemma_gathered(blocks: Seq<JsonV>, ty: Seq<char>, k: Seq<char>)
    ensures
        anthropic_request::gathered(blocks, ty, k) == members::run_on(texts_in(of_type(blocks, ty), k)),
    decreases blocks.len(),
{
    reveal(Seq::filter);
    lemma_empty();
    if blocks.len() > 0 {
        lemma_gathered(blocks.drop_last(), ty, k);
        lemma_of_type(blocks, ty);
        let before = of_type(blocks.drop_last(), ty);
        if blocks.last().get("type"@) == Some(JsonV::Str(ty)) {
            let now = texts_in(before.push(blocks.last()), k);
            assert(now.drop_last() =~= texts_in(before, k));
            assert(now.last() == members::text_or(blocks.last(), k, Seq::empty()));
        }
    } else {
        assert(texts_in(of_type(blocks, ty), k) =~= Seq::<Seq<char>>::empty());
    }
}

proof fn lemma_same_words(ps: Seq<JsonV>, bs: Seq<JsonV>)
    requires
        are_texts_of(ps, bs),
    ensures
        texts_in(ps, "text"@) == texts_in(bs, "text"@),
{
    assert forall|i: int| 0 <= i < ps.len() implies texts_in(ps, "text"@)[i] == #[trigger] texts_in(bs, "text"@)[i] by {
        assert(is_text_of(ps[i], bs[i]));
    }
    assert(texts_in(ps, "text"@) =~= texts_in(bs, "text"@));
}

/// Whether a chat call is what a block uses.
pub open spec fn is_call_of(c: JsonV, b: JsonV) -> bool {
    &&& c.get("type"@) == Some(JsonV::Str("function"@))
    &&& c.get("id"@) == Some(JsonV::Str(members::text_or(b, "id"@, Seq::empty())))
    &&& members::inner(c, "function"@, "name"@) == Some(JsonV::Str(members::text_or(b, "name"@, Seq::empty())))
    &&& members::inner(c, "function"@, "arguments"@) == Some(
        JsonV::Str(
            json::json_text(
                match b.get("input"@) {
                    Some(j) => j,
                    None => JsonV::obj(),
                },
            ),
        ),
    )
}

/// A chat call has the identifier, the name and the arguments that it is made of.
pub proof fn calls_hold_their_parts(id: Seq<char>, name: Seq<char>, arguments: Seq<char>)
    ensures
        ({
            let c = anthropic_request::function_call(id, name, arguments);
            &&& c.get("id"@) == Some(JsonV::Str(id))
            &&& c.get("type"@) == Some(JsonV::Str("function"@))
            &&& members::inner(c, "function"@, "name"@) == Some(JsonV::Str(name))
            &&& members::inner(c, "function"@, "arguments"@) == Some(JsonV::Str(arguments))
        }),
{
    broadcast use members::group_reading;

    reveal_strlit("id");
    reveal_strlit("type");
    reveal_strlit("function");
    reveal_strlit("name");
    reveal_strlit("arguments");
    assert("id"@.len() == 2 && "type"@.len() == 4 && "function"@.len() == 8 && "name"@.len() == 4);
    assert("arguments"@.len() == 9 && "name"@[0] == 'n' && "type"@[0] == 't');
}

proof fn lemma_use_calls(blocks: Seq<JsonV>)
    ensures
        ({
            let cs = anthropic_request::use_calls(blocks);
            let bs = of_type(blocks, "tool_use"@);
            cs.len() == bs.len() && forall|i: int| 0 <= i < cs.len() ==> is_call_of(#[trigger] cs[i], bs[i])
        }),
    decreases blocks.len(),
{
    reveal(Seq::filter);
    lemma_empty();
    if blocks.len() > 0 {
        lemma_use_calls(blocks.drop_last());
        lemma_of_type(blocks, "tool_use"@);
        let b = blocks.last();
        let input = match b.get("input"@) {
            Some(j) => j,
            None => JsonV::obj(),
        };
        calls_hold_their_parts(b.str_or("id"@, ""@), b.str_or("name"@, ""@), json::json_text(input));
    }
}

/// What the assistant said, as blocks: content that is a text is one block of that text.
pub open spec fn is_said_in(blocks: Seq<JsonV>, msg: JsonV) -> bool {
    match msg.get("content"@) {
        Some(JsonV::Array(bs)) => blocks == bs,
        Some(JsonV::Str(s)) => blocks.len() == 1 && upstream_request::is_text(blocks[0], s) && blocks[0].get(
            "cache_control"@,
        ) is None,
        _ => blocks.len() == 1 && upstream_request::is_text(blocks[0], Seq::empty()) && blocks[0].get("cache_control"@)
            is None,
    }
}

/// Whether a chat message says what a message of the assistant says in blocks: all of its text
/// in order, all of its thinking, and all of its tool calls.
pub open spec fn speaks_for(m: JsonV, blocks: Seq<JsonV>) -> bool {
    let words = members::run_on(texts_in(of_type(blocks, "text"@), "text"@));
    let thoughts = members::run_on(texts_in(of_type(blocks, "thinking"@), "thinking"@));
    let used = of_type(blocks, "tool_use"@);
    &&& upstream_request::has_role(m, "assistant"@)
    &&& m.get("content"@) matches Some(c) && words_of(c) == words && (words.len() == 0 || c is Str || c is Array) && (
    c matches JsonV::Array(ps) ==> are_texts_of(ps, of_type(blocks, "text"@)))
    &&& m.get("reasoning_content"@) == (if thoughts.len() > 0 {
        Some(JsonV::Str(thoughts))
    } else {
        None
    })
    &&& used.len() == 0 ==> m.get("tool_calls"@) is None
    &&& used.len() > 0 ==> (m.get("tool_calls"@) matches Some(JsonV::Array(cs)) && cs.len() == used.len() && forall|i: int|
        0 <= i < cs.len() ==> is_call_of(#[trigger] cs[i], used[i]))
}

proof fn lemma_speaks(msg: JsonV)
    ensures
        speaks_for(anthropic_request::assistant_message(msg), anthropic_request::assistant_blocks(msg)),
{
    broadcast use members::group_reading;

    let blocks = anthropic_request::assistant_blocks(msg);
    lemma_carried_texts(blocks);
    lemma_gathered(blocks, "text"@, "text"@);
    lemma_gathered(blocks, "thinking"@, "thinking"@);
    lemma_use_calls(blocks);
    let ps = anthropic_request::carried_texts(blocks);
    lemma_same_words(ps, of_type(blocks, "text"@));
    reveal_strlit("role");
    reveal_strlit("content");
    reveal_strlit("reasoning_content");
    reveal_strlit("tool_calls");
    assert("role"@.len() == 4 && "content"@.len() == 7 && "reasoning_content"@.len() == 17);
    assert("tool_calls"@.len() == 10);
    let c = anthropic_request::assistant_text(blocks);
    let words = members::run_on(texts_in(of_type(blocks, "text"@), "text"@));
    assert(words_of(c) =~= words);
    let a = anthropic_request::role_message("assistant"@, c);
    assert(a is Object && a.get("content"@) == Some(c) && a.get("role"@) == Some(JsonV::Str("assistant"@)));
    assert(a.get("reasoning_content"@) is None && a.get("tool_calls"@) is None);
    let r = anthropic_request::text_if_any(anthropic_request::gathered(blocks, "thinking"@, "thinking"@));
    let b = a.with_some("reasoning_content"@, r);
    assert(b is Object && b.get("reasoning_content"@) == r && b.get("tool_calls"@) is None);
    assert(b.get("content"@) == Some(c) && b.get("role"@) == a.get("role"@));
}

/// A message of the assistant says in the chat form what it says in blocks; one that is a text is
/// that text.
pub proof fn assistants_are_quoted(msg: JsonV)
    ensures
        exists|blocks: Seq<JsonV>| #[trigger]
            is_said_in(blocks, msg) && speaks_for(anthropic_request::assistant_message(msg), blocks),
        msg.get("content"@) matches Some(JsonV::Str(s)) ==> s.len() > 0 ==> anthropic_request::assistant_message(
            msg,
        ).get("content"@) == Some(JsonV::Str(s)),
{
    broadcast use members::group_reading;

    let blocks = anthropic_request::assistant_blocks(msg);
    lemma_speaks(msg);
    lemma_empty();
    reveal_strlit("type");
    reveal_strlit("text");
    reveal_strlit("cache_control");
    assert("type"@.len() == 4 && "text"@.len() == 4 && "cache_control"@.len() == 13 && "text"@[1] == 'e');
    assert("type"@[1] == 'y');
    let s = match msg.get("content"@) {
        Some(JsonV::Str(s)) => s,
        _ => Seq::empty(),
    };
    let one = cc::text_part(s);
    assert(upstream_request::is_text(one, s));
    assert(one.get("cache_control"@) is None);
    assert(is_said_in(blocks, msg));
    if let Some(JsonV::Str(_)) = msg.get("content"@) {
        assert(blocks =~= seq![one]);
        reveal(Seq::filter);
        assert(blocks.drop_last() =~= Seq::<JsonV>::empty());
        lemma_of_type(blocks, "text"@);
        assert(of_type(Seq::empty(), "text"@) =~= Seq::<JsonV>::empty());
        assert(of_type(blocks, "text"@) =~= seq![one]);
        let v = texts_in(seq![one], "text"@);
        assert(v =~= seq![s]);
        assert(v.drop_last() =~= Seq::<Seq<char>>::empty());
        assert(members::run_on(v.drop_last()) =~= Seq::<char>::empty());
        assert(members::run_on(v) =~= s);
        lemma_carried_texts(blocks);
        lemma_gathered(blocks, "text"@, "text"@);
        assert(!anthropic_request::text_marked(blocks));
    reveal_strlit("role");
    reveal_strlit("content");
    reveal_strlit("reasoning_content");
    reveal_strlit("tool_calls");
    assert("role"@.len() == 4 && "content"@.len() == 7 && "reasoning_content"@.len() == 17);
    assert("tool_calls"@.len() == 10);
        let c = anthropic_request::assistant_text(blocks);
        if s.len() > 0 {
            assert(c == JsonV::Str(s));
            let a = anthropic_request::role_message("assistant"@, c);
            assert(a is Object && a.get("content"@) == Some(c));
            let r = anthropic_request::text_if_any(anthropic_request::gathered(blocks, "thinking"@, "thinking"@));
            let b = a.with_some("reasoning_content"@, r);
            assert(b is Object && b.get("content"@) == Some(c));
        }
    }
}

// ── the user ───────────────────────────────────────────────────

/// The URL of an image: its data as a data URL where it is given as base64, else its address.
pub open spec fn is_url_of(u: Seq<char>, b: JsonV) -> bool {
    match b.get("source"@) {
        Some(s) => match (s.get("type"@) == Some(JsonV::Str("base64"@)), s.get("data"@)) {
            (true, Some(JsonV::Str(d))) => if d.len() > 0 {
                u == "data:"@ + members::text_or(s, "media_type"@, "image/png"@) + ";base64,"@ + d
            } else {
                u == members::text_or(s, "url"@, Seq::empty())
            },
            _ => u == members::text_or(s, "url"@, Seq::empty()),
        },
        None => u.len() == 0,
    }
}

/// The address of an image is a data URL with its media type and its data, or its own URL.
pub proof fn images_have_their_address(b: JsonV)
    ensures
        is_url_of(anthropic_request::image_url(b), b),
{
    broadcast use members::group_reading;

    lemma_empty();
}

/// Whether a block of the user is shown: a text, or an image with an address.
pub open spec fn is_shown(b: JsonV) -> bool {
    b.get("type"@) == Some(JsonV::Str("text"@)) || (b.get("type"@) == Some(JsonV::Str("image"@))
        && anthropic_request::image_url(b).len() > 0)
}

/// The blocks that are shown.
pub open spec fn shown(blocks: Seq<JsonV>) -> Seq<JsonV> {
    blocks.filter(|b: JsonV| is_shown(b))
}

/// Whether a part is a block of the user: a text with its cache breakpoint, or an image with its
/// address.
pub open spec fn is_part_of(p: JsonV, b: JsonV) -> bool {
    if b.get("type"@) == Some(JsonV::Str("text"@)) {
        is_text_of(p, b)
    } else {
        &&& p.get("type"@) == Some(JsonV::Str("image_url"@))
        &&& members::inner(p, "image_url"@, "url"@) matches Some(JsonV::Str(u)) && is_url_of(u, b)
    }
}

proof fn lemma_user_parts(blocks: Seq<JsonV>)
    ensures
        ({
            let ps = anthropic_request::user_parts(blocks);
            let bs = shown(blocks);
            ps.len() == bs.len() && forall|i: int| 0 <= i < ps.len() ==> is_part_of(#[trigger] ps[i], bs[i])
        }),
    decreases blocks.len(),
{
    broadcast use members::group_reading;

    reveal(Seq::filter);
    if blocks.len() > 0 {
        lemma_user_parts(blocks.drop_last());
        let b = blocks.last();
        lemma_carried(b);
        images_have_their_address(b);
    reveal_strlit("text");
    reveal_strlit("image");
    reveal_strlit("type");
    reveal_strlit("image_url");
    reveal_strlit("url");
    assert("text"@.len() == 4 && "image"@.len() == 5 && "type"@.len() == 4 && "image_url"@.len() == 9);
    assert("url"@.len() == 3 && "text"@[1] == 'e' && "type"@[1] == 'y');
        let p = anthropic_request::image_part(anthropic_request::image_url(b));
        assert(p.get("type"@) == Some(JsonV::Str("image_url"@)));
        assert(members::inner(p, "image_url"@, "url"@) == Some(JsonV::Str(anthropic_request::image_url(b))));
        if is_shown(b) {
            assert(shown(blocks) == shown(blocks.drop_last()).push(b));
        }
    }
}

proof fn lemma_shown_texts(blocks: Seq<JsonV>)
    ensures
        shown(blocks).len() <= 1 && (forall|i: int|
            0 <= i < shown(blocks).len() ==> (#[trigger] shown(blocks)[i]).get("type"@) == Some(JsonV::Str("text"@)))
            ==> of_type(blocks, "text"@) == shown(blocks),
    decreases blocks.len(),
{
    reveal(Seq::filter);
    let bs = shown(blocks);
    if blocks.len() > 0 {
        let front = blocks.drop_last();
        lemma_shown_texts(front);
        lemma_of_type(blocks, "text"@);
        let b = blocks.last();
        let fs = shown(front);
        if is_shown(b) {
            assert(bs == fs.push(b));
            if bs.len() <= 1 && (forall|i: int| 0 <= i < bs.len() ==> (#[trigger] bs[i]).get("type"@) == Some(
                JsonV::Str("text"@),
            )) {
                assert(bs[bs.len() - 1] == b);
                assert forall|i: int| 0 <= i < fs.len() implies (#[trigger] fs[i]).get("type"@) == Some(
                    JsonV::Str("text"@),
                ) by {
                    assert(fs[i] == bs[i]);
                }
            }
        }
    }
}

/// Whether content says what a user's message says: the text of one that is a text; of blocks
/// their text where there is one, and else each text and image in its place.
pub open spec fn quotes(c: JsonV, msg: JsonV) -> bool {
    match msg.get("content"@) {
        Some(JsonV::Str(s)) => c == JsonV::Str(s),
        Some(JsonV::Array(blocks)) => {
            let kept = shown(blocks);
            match c {
                JsonV::Str(t) => kept == of_type(blocks, "text"@) && t == members::run_on(texts_in(kept, "text"@)),
                JsonV::Array(ps) => ps.len() == kept.len() && forall|i: int|
                    0 <= i < ps.len() ==> is_part_of(#[trigger] ps[i], kept[i]),
                _ => false,
            }
        },
        _ => false,
    }
}

/// What a user says is quoted, and a message without anything to quote is left out.
pub proof fn users_are_quoted(msg: JsonV)
    ensures
        anthropic_request::user_message_content(msg) matches Some(c) ==> quotes(c, msg),
        anthropic_request::user_message_content(msg) is None ==> (match msg.get("content"@) {
            Some(JsonV::Str(s)) => s.len() == 0,
            Some(JsonV::Array(blocks)) => shown(blocks).len() == 0,
            _ => true,
        }),
        msg.get("content"@) matches Some(JsonV::Array(blocks)) ==> anthropic_request::text_marked(blocks)
            ==> !(anthropic_request::user_message_content(msg) matches Some(JsonV::Str(_))),
{
    let blocks = msg.items("content"@);
    let ps = anthropic_request::user_parts(blocks);
    lemma_user_parts(blocks);
    lemma_shown_texts(blocks);
    lemma_gathered(blocks, "text"@, "text"@);
    reveal(Seq::filter);
    let kept = shown(blocks);
    reveal_strlit("text");
    reveal_strlit("image");
    reveal_strlit("image_url");
    assert("text"@.len() == 4 && "image"@.len() == 5 && "image_url"@.len() == 9);
    match msg.get("content"@) {
        Some(JsonV::Array(bs)) => {
            if ps.len() == 1 {
                assert(is_part_of(ps[0], kept[0]));
            }
        },
        _ => {
            assert(blocks =~= Seq::<JsonV>::empty());
            assert(kept.len() == 0);
        },
    }
}

/// Whether a message holds the result of a tool: for the same call, with all that it gave back.
pub open spec fn is_result_of(m: JsonV, b: JsonV) -> bool {
    &&& upstream_request::has_role(m, "tool"@)
    &&& m.get("tool_call_id"@) == Some(
        match b.get("tool_use_id"@) {
            Some(id) => id,
            None => JsonV::Null,
        },
    )
    &&& m.get("content"@) == Some(
        JsonV::Str(
            match b.get("content"@) {
                Some(JsonV::Array(ps)) => text::joined(texts_in(ps, "text"@), "\n"@),
                c => members::plain(c),
            },
        ),
    )
}

proof fn lemma_tool_message(b: JsonV, names: Seq<(Seq<char>, Seq<char>)>)
    ensures
        is_result_of(anthropic_request::tool_message(b, names), b),
        b.get("tool_use_id"@) matches Some(JsonV::Str(id)) ==> anthropic_request::tool_message(b, names).get("name"@)
            == (match cc::name_for(names, id) {
            Some(n) => Some(JsonV::Str(n)),
            None => None,
        }),
{
    broadcast use members::group_reading;

    lemma_empty();
    reveal_strlit("role");
    reveal_strlit("tool_call_id");
    reveal_strlit("content");
    reveal_strlit("name");
    assert("role"@.len() == 4 && "tool_call_id"@.len() == 12 && "content"@.len() == 7 && "name"@.len() == 4);
    assert("name"@[0] == 'n' && "role"@[0] == 'r');
    if let Some(JsonV::Array(ps)) = b.get("content"@) {
        assert(anthropic_request::part_strs(ps) =~= texts_in(ps, "text"@));
    }
    let a = JsonV::obj().with("role"@, JsonV::Str("tool"@)).with("tool_call_id"@, b.or_null("tool_use_id"@)).with(
        "content"@,
        JsonV::Str(anthropic_request::result_text(b.get("content"@))),
    );
    assert(a is Object && a.get("role"@) == Some(JsonV::Str("tool"@)) && a.get("name"@) is None);
    assert(a.get("tool_call_id"@) == Some(b.or_null("tool_use_id"@)));
    assert(a.get("content"@) == Some(JsonV::Str(anthropic_request::result_text(b.get("content"@)))));
}

proof fn lemma_tool_messages(blocks: Seq<JsonV>, names: Seq<(Seq<char>, Seq<char>)>)
    ensures
        ({
            let ms = anthropic_request::tool_messages(blocks, names);
            let bs = of_type(blocks, "tool_result"@);
            ms.len() == bs.len() && forall|i: int| 0 <= i < ms.len() ==> is_result_of(#[trigger] ms[i], bs[i])
        }),
    decreases blocks.len(),
{
    reveal(Seq::filter);
    if blocks.len() > 0 {
        lemma_tool_messages(blocks.drop_last(), names);
        lemma_of_type(blocks, "tool_result"@);
        lemma_tool_message(blocks.last(), names);
    }
}

/// Whether messages are those of a user's message: first the results of tools, all of them and in
/// order, then what the user says, if anything.
pub open spec fn are_of_user(ms: Seq<JsonV>, msg: JsonV) -> bool {
    let results = of_type(members::list_in(msg, "content"@), "tool_result"@);
    &&& ms.len() == results.len() || ms.len() == results.len() + 1
    &&& forall|i: int| 0 <= i < results.len() ==> is_result_of(#[trigger] ms[i], results[i])
    &&& ms.len() > results.len() ==> upstream_request::has_role(ms.last(), "user"@) && (ms.last().get("content"@)
        matches Some(c) && quotes(c, msg))
    &&& ms.len() == results.len() ==> (match msg.get("content"@) {
        Some(JsonV::Str(s)) => s.len() == 0,
        Some(JsonV::Array(blocks)) => shown(blocks).len() == 0,
        _ => true,
    })
}

proof fn lemma_user_messages(msg: JsonV, names: Seq<(Seq<char>, Seq<char>)>)
    ensures
        are_of_user(anthropic_request::user_messages(msg, names), msg),
{
    broadcast use members::group_reading;

    users_are_quoted(msg);
    let blocks = members::list_in(msg, "content"@);
    lemma_tool_messages(blocks, names);
    reveal_strlit("role");
    reveal_strlit("content");
    assert("role"@.len() == 4 && "content"@.len() == 7);
    let rs = anthropic_request::tool_messages(blocks, names);
    if let Some(c) = anthropic_request::user_message_content(msg) {
        let m = anthropic_request::role_message("user"@, c);
        assert(m.get("role"@) == Some(JsonV::Str("user"@)) && m.get("content"@) == Some(c));
        let ms = rs.push(m);
        assert forall|i: int| 0 <= i < rs.len() implies is_result_of(
            #[trigger] ms[i],
            of_type(blocks, "tool_result"@)[i],
        ) by {
            assert(ms[i] == rs[i]);
        }
    }
}

/// The conversation keeps its order: each message of the assistant becomes one, each of the user
/// the results of tools and what the user says, and what was said before stays.
pub proof fn conversations_keep_their_order(ms: Seq<JsonV>, m: JsonV)
    ensures
        ({
            let before = anthropic_request::chat_messages(ms);
            let after = anthropic_request::chat_messages(ms.push(m));
            &&& after.len() >= before.len()
            &&& after.take(before.len() as int) == before
            &&& upstream_request::has_role(m, "assistant"@) ==> after.len() == before.len() + 1 && exists|blocks: Seq<
                JsonV,
            >| #[trigger] is_said_in(blocks, m) && speaks_for(after.last(), blocks)
            &&& upstream_request::has_role(m, "user"@) ==> are_of_user(after.skip(before.len() as int), m)
            &&& !upstream_request::has_role(m, "assistant"@) && !upstream_request::has_role(m, "user"@) ==> after
                == before
        }),
        anthropic_request::chat_messages(Seq::empty()).len() == 0,
{
    let before = anthropic_request::chat_messages(ms);
    let after = anthropic_request::chat_messages(ms.push(m));
    assert(ms.push(m).drop_last() =~= ms);
    assert(ms.push(m).last() == m);
    assistants_are_quoted(m);
    let names = anthropic_request::used_names(ms);
    lemma_user_messages(m, names);
    reveal_strlit("assistant");
    reveal_strlit("user");
    assert("assistant"@.len() == 9 && "user"@.len() == 4);
    reveal_strlit("");
    if upstream_request::has_role(m, "assistant"@) {
        assert(after == before.push(anthropic_request::assistant_message(m)));
        assert(after.take(before.len() as int) =~= before);
    } else if upstream_request::has_role(m, "user"@) {
        let us = anthropic_request::user_messages(m, names);
        assert(after == before + us);
        assert(after.take(before.len() as int) =~= before);
        assert(after.skip(before.len() as int) =~= us);
    } else {
        assert(after == before);
        assert(after.take(before.len() as int) =~= before);
    }
}

/// The result of a tool names the tool that the assistant used under its identifier last.
pub proof fn results_name_their_tool(b: JsonV, names: Seq<(Seq<char>, Seq<char>)>, id: Seq<char>)
    requires
        b.get("tool_use_id"@) == Some(JsonV::Str(id)),
    ensures
        anthropic_request::tool_message(b, names).get("name"@) == (match cc::name_for(names, id) {
            Some(n) => Some(JsonV::Str(n)),
            None => None,
        }),
{
    lemma_tool_message(b, names);
}

proof fn lemma_name_sum(a: Seq<(Seq<char>, Seq<char>)>, b: Seq<(Seq<char>, Seq<char>)>, id: Seq<char>)
    ensures
        cc::name_for(a + b, id) == (match cc::name_for(b, id) {
            Some(n) => Some(n),
            None => cc::name_for(a, id),
        }),
    decreases b.len(),
{
    if b.len() == 0 {
        assert(a + b =~= a);
    } else {
        assert((a + b).drop_last() =~= a + b.drop_last());
        lemma_name_sum(a, b.drop_last(), id);
    }
}

/// A block that uses a tool gives its identifier that tool's name from then on.
pub proof fn names_are_remembered(ms: Seq<JsonV>, m: JsonV, blocks: Seq<JsonV>, b: JsonV, id: Seq<char>)
    requires
        upstream_request::has_role(m, "assistant"@),
        m.get("content"@) == Some(JsonV::Array(blocks.push(b))),
        b.get("type"@) == Some(JsonV::Str("tool_use"@)),
        b.get("id"@) == Some(JsonV::Str(id)),
    ensures
        cc::name_for(anthropic_request::used_names(ms.push(m)), id) == Some(
            members::text_or(b, "name"@, Seq::empty()),
        ),
{
    lemma_empty();
    assert(ms.push(m).drop_last() =~= ms);
    let bs = blocks.push(b);
    assert(bs.drop_last() =~= blocks);
    let u = anthropic_request::use_names(bs);
    assert(u.last() == (id, members::text_or(b, "name"@, Seq::empty())));
    lemma_name_sum(anthropic_request::used_names(ms), u, id);
}

/// What others say, and blocks of other kinds, change no name.
pub proof fn names_stay(ms: Seq<JsonV>, m: JsonV)
    requires
        !upstream_request::has_role(m, "assistant"@),
    ensures
        anthropic_request::used_names(ms.push(m)) == anthropic_request::used_names(ms),
{
    assert(ms.push(m).drop_last() =~= ms);
    reveal_strlit("assistant");
    reveal_strlit("");
    assert("assistant"@.len() == 9);
    assert(cc::role_of(m) != "assistant"@);
}

// ── the request ────────────────────────────────────────────────

/// Whether a chat tool is a tool of the client.
pub open spec fn is_tool_of(c: JsonV, t: JsonV, schema: Seq<char>) -> bool {
    &&& c.get("type"@) == Some(JsonV::Str("function"@))
    &&& members::inner(c, "function"@, "name"@) == Some(JsonV::Str(members::text_or(t, "name"@, Seq::empty())))
    &&& members::inner(c, "function"@, "description"@) == Some(
        JsonV::Str(members::text_or(t, "description"@, Seq::empty())),
    )
    &&& t.get(schema) matches Some(s) ==> members::inner(c, "function"@, "parameters"@) == Some(s)
    &&& t.get(schema) is None ==> (members::inner(c, "function"@, "parameters"@) matches Some(s) && s.get("type"@) == Some(
        JsonV::Str("object"@),
    ))
}

/// A tool is offered with its name, its description and its schema.
pub proof fn tools_are_offered(t: JsonV, schema: Seq<char>)
    ensures
        is_tool_of(anthropic_request::chat_tool(t, schema), t, schema),
{
    broadcast use members::group_reading;

    lemma_empty();
    reveal_strlit("type");
    reveal_strlit("function");
    reveal_strlit("name");
    reveal_strlit("description");
    reveal_strlit("parameters");
    reveal_strlit("properties");
    assert("type"@.len() == 4 && "function"@.len() == 8 && "name"@.len() == 4 && "description"@.len() == 11);
    assert("parameters"@.len() == 10 && "properties"@.len() == 10 && "name"@[0] == 'n' && "parameters"@[1] == 'a');
    assert("properties"@[1] == 'r' && "type"@[0] == 't');
}

/// Whether a chat tool choice is the wish of the client.
pub open spec fn is_choice_of(c: Option<JsonV>, tc: JsonV) -> bool {
    match tc.get("type"@) {
        Some(JsonV::Str(ty)) => {
            &&& ty == "auto"@ ==> c == Some(JsonV::Str("auto"@))
            &&& ty == "any"@ ==> c == Some(JsonV::Str("required"@))
            &&& ty == "none"@ ==> c == Some(JsonV::Str("none"@))
            &&& ty == "tool"@ ==> (c matches Some(j) && j.get("type"@) == Some(JsonV::Str("function"@))
                && members::inner(j, "function"@, "name"@) == Some(
                match tc.get("name"@) {
                    Some(n) => n,
                    None => JsonV::Null,
                },
            ))
        },
        _ => c == Some(JsonV::Str("auto"@)),
    }
}

/// A choice of a tool means in the chat form what it means in the other.
pub proof fn choices_are_kept(tc: JsonV)
    ensures
        is_choice_of(anthropic_request::chat_tool_choice(tc), tc),
{
    broadcast use members::group_reading;

    reveal_strlit("auto");
    reveal_strlit("any");
    reveal_strlit("none");
    reveal_strlit("tool");
    reveal_strlit("type");
    reveal_strlit("function");
    reveal_strlit("name");
    assert("auto"@.len() == 4 && "any"@.len() == 3 && "none"@.len() == 4 && "tool"@.len() == 4);
    assert("type"@.len() == 4 && "function"@.len() == 8 && "name"@.len() == 4 && "auto"@[0] == 'a');
    assert("name"@[0] == 'n' && "name"@[1] == 'a' && "none"@[0] == 'n' && "none"@[1] == 'o');
    assert("tool"@[0] == 't' && "tool"@[1] == 'o' && "type"@[0] == 't' && "type"@[1] == 'y');
}

/// A request keeps what it asks: its model, limit, temperature, stop texts, user and tools; and it
/// asks for a stream where the client does.
pub proof fn requests_keep_their_terms(req: JsonV, n: int)
    ensures
        ({
            let c = anthropic_request::chat_request(req);
            let tools = members::list_in(req, "tools"@);
            &&& req.get("model"@) matches Some(JsonV::Str(m)) ==> c.get("model"@) == Some(JsonV::Str(m))
            &&& numbers::is_exact(n) && req.get("max_tokens"@) == Some(json::int_json(n)) ==> c.get("max_tokens"@)
                == Some(json::int_json(n))
            &&& req.get("max_tokens"@) is None ==> c.get("max_tokens"@) == Some(json::int_json(64_000))
            &&& req.get("stream"@) matches Some(JsonV::Bool(b)) ==> c.get("stream"@) == Some(JsonV::Bool(b))
            &&& req.get("stream"@) is None ==> c.get("stream"@) == Some(JsonV::Bool(false))
            &&& c.get("temperature"@) == upstream_params::named(req, "temperature"@)
            &&& c.get("top_p"@) == upstream_params::named(req, "top_p"@)
            &&& c.get("stop"@) == upstream_params::named(req, "stop_sequences"@)
            &&& c.get("user"@) == (match members::inner(req, "metadata"@, "user_id"@) {
                Some(JsonV::Null) => None,
                o => o,
            })
            &&& tools.len() == 0 ==> c.get("tools"@) is None
            &&& tools.len() > 0 ==> (c.get("tools"@) matches Some(JsonV::Array(ts)) && ts.len() == tools.len()
                && forall|i: int|
                0 <= i < ts.len() ==> is_tool_of(#[trigger] ts[i], tools[i], "input_schema"@))
            &&& req.get("tool_choice"@) matches Some(tc) ==> is_choice_of(c.get("tool_choice"@), tc)
            &&& req.get("tool_choice"@) is None ==> c.get("tool_choice"@) is None
            &&& c.get("messages"@) == Some(
                JsonV::Array(
                    anthropic_request::system_messages(req) + anthropic_request::chat_messages(
                        members::list_in(req, "messages"@),
                    ),
                ),
            )
        }),
{
    broadcast use members::group_reading;

    if numbers::is_exact(n) {
        numbers::integers_are_read(n, 64_000);
    }
    numbers::other_values_are_no_numbers(None, 64_000);
    let asked = members::list_in(req, "tools"@);
    let ts = asked.map_values(|t: JsonV| anthropic_request::chat_tool(t, "input_schema"@));
    assert forall|i: int| 0 <= i < ts.len() implies is_tool_of(#[trigger] ts[i], asked[i], "input_schema"@) by {
        tools_are_offered(asked[i], "input_schema"@);
    }
    if let Some(tc) = req.get("tool_choice"@) {
        choices_are_kept(tc);
    }
    reveal_strlit("model");
    reveal_strlit("messages");
    reveal_strlit("max_tokens");
    reveal_strlit("stream");
    reveal_strlit("tools");
    reveal_strlit("tool_choice");
    reveal_strlit("temperature");
    reveal_strlit("top_p");
    reveal_strlit("stop");
    reveal_strlit("user");
    reveal_strlit("reasoning_effort");
    assert("model"@.len() == 5 && "messages"@.len() == 8 && "max_tokens"@.len() == 10 && "stream"@.len() == 6);
    assert("tools"@.len() == 5 && "tool_choice"@.len() == 11 && "temperature"@.len() == 11 && "top_p"@.len() == 5);
    assert("stop"@.len() == 4 && "user"@.len() == 4 && "reasoning_effort"@.len() == 16 && "model"@[0] == 'm');
    assert("stop"@[0] == 's' && "temperature"@[1] == 'e' && "tool_choice"@[1] == 'o' && "tools"@[0] == 't');
    assert("tools"@[2] == 'o' && "top_p"@[0] == 't' && "top_p"@[2] == 'p' && "user"@[0] == 'u');
    let max = json::int_json(util::integer_or(req.get("max_tokens"@), 64_000) as int);
    let all = JsonV::Array(
        anthropic_request::system_messages(req) + anthropic_request::chat_messages(req.items("messages"@)),
    );
    let model = JsonV::Str(req.str_or("model"@, cc::default_model()));
    let stream = JsonV::Bool(config::bool_or(req, "stream"@, false));
    let a = JsonV::obj().with("model"@, model).with("messages"@, all).with("max_tokens"@, max).with("stream"@, stream);
    assert(a.get("model"@) == Some(model) && a.get("messages"@) == Some(all) && a.get("max_tokens"@) == Some(max)
        && a.get("stream"@) == Some(stream));
    assert(a.get("tools"@) is None && a.get("tool_choice"@) is None && a.get("temperature"@) is None && a.get("top_p"@)
        is None && a.get("stop"@) is None && a.get("user"@) is None);
    let tc = match req.get("tool_choice"@) {
        Some(tc) => anthropic_request::chat_tool_choice(tc),
        None => None,
    };
    let b = a.with_some("tools"@, anthropic_request::list_if_any(ts)).with_some("tool_choice"@, tc);
    assert(b is Object && b.get("tools"@) == anthropic_request::list_if_any(ts) && b.get("tool_choice"@) == tc);
    assert(b.get("model"@) == Some(model) && b.get("messages"@) == Some(all) && b.get("max_tokens"@) == Some(max)
        && b.get("stream"@) == Some(stream));
    assert(b.get("temperature"@) is None && b.get("top_p"@) is None && b.get("stop"@) is None);
    assert(b.get("user"@) is None);
    let c = b.with_some("temperature"@, req.get_nonnull("temperature"@)).with_some(
        "top_p"@,
        req.get_nonnull("top_p"@),
    ).with_some("stop"@, req.get_nonnull("stop_sequences"@));
    assert(c is Object && c.get("tools"@) == b.get("tools"@) && c.get("tool_choice"@) == tc);
    assert(c.get("model"@) == Some(model) && c.get("messages"@) == Some(all) && c.get("max_tokens"@) == Some(max)
        && c.get("stream"@) == Some(stream));
    assert(c.get("temperature"@) == req.get_nonnull("temperature"@));
    assert(c.get("top_p"@) == req.get_nonnull("top_p"@));
    assert(c.get("stop"@) == req.get_nonnull("stop_sequences"@));
    assert(c.get("user"@) is None);
    let user = match req.get2("metadata"@, "user_id"@) {
        Some(JsonV::Null) => None,
        o => o,
    };
    let d = c.with_some("user"@, user);
    assert(d is Object && d.get("user"@) == user);
}

/// The system prompt of a request is its first message: its text, or its text blocks in order.
pub proof fn prompts_come_first(req: JsonV)
    ensures
        req.get("system"@) matches Some(JsonV::Str(s)) ==> s.len() > 0 ==> anthropic_request::system_messages(req).len()
            == 1 && upstream_request::has_role(anthropic_request::system_messages(req)[0], "system"@)
            && anthropic_request::system_messages(req)[0].get("content"@) == Some(JsonV::Str(s)),
        req.get("system"@) matches Some(JsonV::Array(blocks)) ==> anthropic_request::system_messages(req).len() == 1
            ==> upstream_request::has_role(anthropic_request::system_messages(req)[0], "system"@) && (
        anthropic_request::system_messages(req)[0].get("content"@) matches Some(JsonV::Array(ps)) && are_texts_of(
            ps,
            of_type(blocks, "text"@),
        )),
        req.get("system"@) matches Some(JsonV::Array(blocks)) ==> text::joined(
            texts_in(of_type(blocks, "text"@), "text"@),
            "\n"@,
        ).len() > 0 ==> anthropic_request::system_messages(req).len() == 1,
        anthropic_request::system_messages(req).len() <= 1,
{
    broadcast use members::group_reading;

    reveal_strlit("role");
    reveal_strlit("content");
    assert("role"@.len() == 4 && "content"@.len() == 7);
    if let Some(JsonV::Array(blocks)) = req.get("system"@) {
        lemma_carried_texts(blocks);
        lemma_block_texts(blocks);
        let c = JsonV::Array(anthropic_request::carried_texts(blocks));
        let m = anthropic_request::role_message("system"@, c);
        assert(m.get("role"@) == Some(JsonV::Str("system"@)) && m.get("content"@) == Some(c));
    }
}

proof fn lemma_block_texts(blocks: Seq<JsonV>)
    ensures
        anthropic_request::block_texts(blocks) == texts_in(of_type(blocks, "text"@), "text"@),
    decreases blocks.len(),
{
    reveal(Seq::filter);
    lemma_empty();
    if blocks.len() > 0 {
        lemma_block_texts(blocks.drop_last());
        lemma_of_type(blocks, "text"@);
        let before = of_type(blocks.drop_last(), "text"@);
        if blocks.last().get("type"@) == Some(JsonV::Str("text"@)) {
            assert(texts_in(before.push(blocks.last()), "text"@) =~= texts_in(before, "text"@).push(
                members::text_or(blocks.last(), "text"@, Seq::empty()),
            ));
        }
    } else {
        assert(texts_in(of_type(blocks, "text"@), "text"@) =~= anthropic_request::block_texts(blocks));
    }
}

/// The effort that a request asks for: none where thinking is off, the one that is named where it
/// is adaptive, and else by the budget.
pub proof fn efforts_follow_the_budget(thinking: JsonV, n: int)
    ensures
        thinking.get("type"@) == Some(JsonV::Str("disabled"@)) || thinking.get("type"@) == Some(JsonV::Str("none"@))
            ==> anthropic_request::effort_of(thinking) is None,
        thinking.get("type"@) == Some(JsonV::Str("adaptive"@)) ==> (thinking.get("effort"@) matches Some(JsonV::Str(e))
            ==> e.len() > 0 ==> anthropic_request::effort_of(thinking) == Some(e)),
        thinking.get("type"@) == Some(JsonV::Str("enabled"@)) && thinking.get("budget_tokens"@) == Some(
            json::int_json(n),
        ) && numbers::is_exact(n) ==> anthropic_request::effort_of(thinking) == Some(
            if n >= 10_000 {
                "high"@
            } else if n >= 5_000 {
                "medium"@
            } else {
                "low"@
            },
        ),
{
    if numbers::is_exact(n) {
        numbers::integers_are_read(n, 0);
    }
    reveal_strlit("disabled");
    reveal_strlit("none");
    reveal_strlit("adaptive");
    reveal_strlit("enabled");
    assert("disabled"@.len() == 8 && "none"@.len() == 4 && "adaptive"@.len() == 8 && "enabled"@.len() == 7);
    assert("adaptive"@[0] == 'a' && "disabled"@[0] == 'd');
}

} // verus!
