//! The upstream is asked under the terms that the client names.

use vstd::prelude::*;
use crate::cc;
use crate::cc::OutgoingV;
use crate::config;
use crate::config::ConfigV;
use crate::fingerprint::DeviceProfileV;
use crate::json;
use crate::json::JsonV;
use crate::laws::events as said;
use crate::laws::members;
use crate::laws::numbers;
use crate::laws::upstream_request;
use crate::text;
use crate::util;

verus! {

/// The parameters of an upstream request.
pub open spec fn params_of(cfg: ConfigV, profile: DeviceProfileV, req: JsonV, date: Seq<char>) -> JsonV {
    match cc::cc_request(cfg, profile, req, date).get("params"@) {
        Some(p) => p,
        None => JsonV::Null,
    }
}

proof fn lemma_params(cfg: ConfigV, profile: DeviceProfileV, req: JsonV, date: Seq<char>)
    ensures
        params_of(cfg, profile, req, date) == cc::params_json(cfg, req),
{
    broadcast use members::group_reading;

}

/// What a member says, where it is there and not null.
pub open spec fn named(req: JsonV, k: Seq<char>) -> Option<JsonV> {
    match req.get(k) {
        Some(JsonV::Null) => None,
        o => o,
    }
}

/// The request that is sent says what the client's says: its model, its limit within the bound of
/// the upstream, its temperature, effort and wish for calls side by side, and as many tools.
pub proof fn requests_keep_their_terms(cfg: ConfigV, profile: DeviceProfileV, req: JsonV, date: Seq<char>, n: int)
    ensures
        ({
            let p = params_of(cfg, profile, req, date);
            &&& req.get("model"@) matches Some(JsonV::Str(m)) ==> m.len() > 0 ==> p.get("model"@) == Some(
                JsonV::Str(m),
            )
            &&& p.get("stream"@) == Some(JsonV::Bool(true))
            &&& p.get("temperature"@) == named(req, "temperature"@)
            &&& p.get("reasoning_effort"@) == named(req, "reasoning_effort"@)
            &&& p.get("parallel_tool_calls"@) == named(req, "parallel_tool_calls"@)
            &&& members::list_in(p, "tools"@).len() == members::list_in(req, "tools"@).len()
            &&& p.get("tools"@) is Some
            &&& req.get("max_tokens"@) == Some(json::int_json(n)) && 0 < n <= 200_000 ==> p.get("max_tokens"@) == Some(
                json::int_json(n),
            )
            &&& req.get("max_tokens"@) == Some(json::int_json(n)) && 200_000 < n && numbers::is_exact(n) ==> p.get(
                "max_tokens"@,
            ) == Some(json::int_json(200_000))
            &&& req.get("max_tokens"@) is None ==> p.get("max_tokens"@) == Some(json::int_json(64_000))
            &&& p.get("messages"@) == Some(
                JsonV::Array(
                    cc::cc_messages(
                        members::list_in(req, "messages"@),
                        cc::tool_names(members::list_in(req, "messages"@)),
                    ),
                ),
            )
        }),
{
    broadcast use members::group_reading;

    lemma_params(cfg, profile, req, date);
    if numbers::is_exact(n) {
        numbers::integers_are_read(n, 0);
    }
    reveal_strlit("model");
    reveal_strlit("messages");
    reveal_strlit("max_tokens");
    reveal_strlit("stream");
    reveal_strlit("system");
    reveal_strlit("temperature");
    reveal_strlit("reasoning_effort");
    reveal_strlit("tools");
    reveal_strlit("tool_choice");
    reveal_strlit("parallel_tool_calls");
    assert("model"@.len() == 5 && "messages"@.len() == 8 && "max_tokens"@.len() == 10 && "stream"@.len() == 6);
    assert("system"@.len() == 6 && "temperature"@.len() == 11 && "reasoning_effort"@.len() == 16);
    assert("tools"@.len() == 5);
    assert("tool_choice"@.len() == 11 && "parallel_tool_calls"@.len() == 19 && "model"@[0] == 'm');
    assert("stream"@[1] == 't');
    assert("system"@[1] == 'y' && "temperature"@[1] == 'e' && "tool_choice"@[1] == 'o' && "tools"@[0] == 't');
    let messages = req.items("messages"@);
    let a = JsonV::obj().with("model"@, JsonV::Str(cc::model_of(req))).with(
        "messages"@,
        JsonV::Array(cc::cc_messages(messages, cc::tool_names(messages))),
    ).with("max_tokens"@, json::int_json(cc::max_tokens_of(req) as int)).with("stream"@, JsonV::Bool(true));
    assert(a.get("model"@) == Some(JsonV::Str(cc::model_of(req))));
    assert(a.get("messages"@) == Some(JsonV::Array(cc::cc_messages(messages, cc::tool_names(messages)))));
    assert(a.get("max_tokens"@) == Some(json::int_json(cc::max_tokens_of(req) as int)));
    assert(a.get("stream"@) == Some(JsonV::Bool(true)));
    assert(a.get("temperature"@) is None && a.get("reasoning_effort"@) is None);
    assert(a.get("parallel_tool_calls"@) is None);
    let b = a.with_some("system"@, cc::system_param(cc::system_blocks(req), cfg.empty_system_placeholder));
    assert(b is Object);
    let c = b.with_some("temperature"@, req.get_nonnull("temperature"@)).with_some(
        "reasoning_effort"@,
        req.get_nonnull("reasoning_effort"@),
    );
    assert(c is Object);
    assert(c.get("temperature"@) == named(req, "temperature"@));
    assert(c.get("reasoning_effort"@) == named(req, "reasoning_effort"@));
    let tools = req.items("tools"@).map_values(|t: JsonV| cc::wire_tool(t));
    let d = c.with("tools"@, JsonV::Array(tools));
    assert(d.get("tools"@) == Some(JsonV::Array(tools)));
    let tc = match req.get("tool_choice"@) {
        Some(tc) => Some(cc::wire_tool_choice(tc)),
        None => None,
    };
    let e = d.with_some("tool_choice"@, tc);
    assert(e is Object);
    let f = e.with_some("parallel_tool_calls"@, req.get_nonnull("parallel_tool_calls"@));
    assert(f == cc::params_json(cfg, req));
    assert(e.get("parallel_tool_calls"@) is None);
}

/// The first of two values that counts as true, or another.
pub open spec fn first_counting(a: Option<JsonV>, b: Option<JsonV>, other: JsonV) -> JsonV {
    if a is Some && said::counts(a->0) {
        a->0
    } else if b is Some && said::counts(b->0) {
        b->0
    } else {
        other
    }
}

/// A tool is named upstream as the client names it, but for the four tools that have another name
/// there.
pub proof fn few_tools_are_renamed(name: Seq<char>)
    ensures
        name != "bash_output"@ && name != "task_output"@ && name != "tool_search"@ && name != "read_multiple_files"@
            ==> cc::wire_tool_name(name) == name,
        name == "bash_output"@ || name == "task_output"@ ==> cc::wire_tool_name(name) == "shell_output"@,
        name == "tool_search"@ ==> cc::wire_tool_name(name) == "search_tools"@,
        name == "read_multiple_files"@ ==> cc::wire_tool_name(name) == "read_file"@,
{
    reveal_strlit("bash_output");
    reveal_strlit("task_output");
    reveal_strlit("tool_search");
    reveal_strlit("read_multiple_files");
    assert("bash_output"@.len() == 11 && "task_output"@.len() == 11 && "tool_search"@.len() == 11);
    assert("read_multiple_files"@.len() == 19);
    assert("bash_output"@[0] == 'b' && "task_output"@[0] == 't' && "task_output"@[1] == 'a');
    assert("tool_search"@[0] == 't');
    assert("tool_search"@[1] == 'o');
}

proof fn lemma_first_counting(a: Option<JsonV>, b: Option<JsonV>, other: JsonV)
    ensures
        util::first_truthy_of(seq![cc::opt_or_null(a), cc::opt_or_null(b)], other) == first_counting(a, b, other),
{
    let x = cc::opt_or_null(a);
    let y = cc::opt_or_null(b);
    said::what_counts_is_true(x);
    said::what_counts_is_true(y);
    reveal_with_fuel(util::first_truthy_of, 3);
    assert(seq![x, y].skip(1) =~= seq![y]);
}

/// The tools of the client are offered in their order, each with its name, description and
/// parameters: those of its function, else its own.
pub proof fn tools_are_offered(cfg: ConfigV, profile: DeviceProfileV, req: JsonV, date: Seq<char>, i: int)
    requires
        0 <= i < members::list_in(req, "tools"@).len(),
    ensures
        ({
            let t = members::list_in(req, "tools"@)[i];
            let w = members::list_in(params_of(cfg, profile, req, date), "tools"@)[i];
            &&& first_counting(members::inner(t, "function"@, "name"@), t.get("name"@), JsonV::Str(Seq::empty()))
                matches JsonV::Str(n) ==> w.get("name"@) == Some(JsonV::Str(cc::wire_tool_name(n)))
            &&& w.get("description"@) == Some(
                first_counting(
                    members::inner(t, "function"@, "description"@),
                    t.get("description"@),
                    JsonV::Str(Seq::empty()),
                ),
            )
            &&& said::counts(
                first_counting(members::inner(t, "function"@, "parameters"@), t.get("input_schema"@), JsonV::Null),
            ) ==> w.get("input_schema"@) == Some(
                first_counting(members::inner(t, "function"@, "parameters"@), t.get("input_schema"@), JsonV::Null),
            )
            &&& w.get("input_schema"@) matches Some(s) && said::counts(s)
        }),
{
    requests_keep_their_terms(cfg, profile, req, date, 0);
    lemma_params(cfg, profile, req, date);
    let t = members::list_in(req, "tools"@)[i];
    lemma_tool(t);
    let p = params_of(cfg, profile, req, date);
    lemma_tools(cfg, req);
}

proof fn lemma_tools(cfg: ConfigV, req: JsonV)
    ensures
        cc::params_json(cfg, req).get("tools"@) == Some(
            JsonV::Array(members::list_in(req, "tools"@).map_values(|t: JsonV| cc::wire_tool(t))),
        ),
{
    broadcast use members::group_reading;

    reveal_strlit("tools");
    reveal_strlit("tool_choice");
    reveal_strlit("parallel_tool_calls");
    assert("tools"@.len() == 5 && "tool_choice"@.len() == 11 && "parallel_tool_calls"@.len() == 19);
    let messages = req.items("messages"@);
    let c = JsonV::obj().with("model"@, JsonV::Str(cc::model_of(req))).with(
        "messages"@,
        JsonV::Array(cc::cc_messages(messages, cc::tool_names(messages))),
    ).with("max_tokens"@, json::int_json(cc::max_tokens_of(req) as int)).with("stream"@, JsonV::Bool(true)).with_some(
        "system"@,
        cc::system_param(cc::system_blocks(req), cfg.empty_system_placeholder),
    ).with_some("temperature"@, req.get_nonnull("temperature"@)).with_some(
        "reasoning_effort"@,
        req.get_nonnull("reasoning_effort"@),
    );
    assert(c is Object);
    let tools = req.items("tools"@).map_values(|t: JsonV| cc::wire_tool(t));
    let d = c.with("tools"@, JsonV::Array(tools));
    assert(d.get("tools"@) == Some(JsonV::Array(tools)));
    let tc = match req.get("tool_choice"@) {
        Some(tc) => Some(cc::wire_tool_choice(tc)),
        None => None,
    };
    let e = d.with_some("tool_choice"@, tc);
    assert(e is Object);
    assert(e.get("tools"@) == d.get("tools"@));
}

proof fn lemma_tool(t: JsonV)
    ensures
        ({
            let w = cc::wire_tool(t);
            &&& first_counting(members::inner(t, "function"@, "name"@), t.get("name"@), JsonV::Str(Seq::empty()))
                matches JsonV::Str(n) ==> w.get("name"@) == Some(JsonV::Str(cc::wire_tool_name(n)))
            &&& w.get("description"@) == Some(
                first_counting(
                    members::inner(t, "function"@, "description"@),
                    t.get("description"@),
                    JsonV::Str(Seq::empty()),
                ),
            )
            &&& said::counts(
                first_counting(members::inner(t, "function"@, "parameters"@), t.get("input_schema"@), JsonV::Null),
            ) ==> w.get("input_schema"@) == Some(
                first_counting(members::inner(t, "function"@, "parameters"@), t.get("input_schema"@), JsonV::Null),
            )
            &&& w.get("input_schema"@) matches Some(s) && said::counts(s)
        }),
{
    broadcast use members::group_reading;

    reveal_strlit("name");
    reveal_strlit("description");
    reveal_strlit("input_schema");
    assert("name"@.len() == 4 && "description"@.len() == 11 && "input_schema"@.len() == 12);
    reveal_strlit("");
    assert(""@ =~= Seq::<char>::empty());
    let empty = JsonV::Str(""@);
    lemma_first_counting(members::inner(t, "function"@, "name"@), t.get("name"@), empty);
    lemma_first_counting(members::inner(t, "function"@, "description"@), t.get("description"@), empty);
    lemma_first_counting(members::inner(t, "function"@, "parameters"@), t.get("input_schema"@), cc::empty_schema());
}

// ── the system prompt ──────────────────────────────────────────

/// The text of a part: of its member `text`, and where that is not there or null of `content`.
pub open spec fn part_words(c: JsonV) -> Seq<char> {
    match named(c, "text"@) {
        Some(t) => members::plain(Some(t)),
        None => members::plain(c.get("content"@)),
    }
}

/// Whether a part of a system message says something: a text, or a cache breakpoint.
pub open spec fn speaks(c: JsonV) -> bool {
    part_words(c).len() > 0 || named(c, "cache_control"@) is Some
}

/// The pieces of a system message, each with its cache breakpoint.
pub open spec fn pieces_of(msg: JsonV) -> Seq<(Seq<char>, Option<JsonV>)> {
    match msg.get("content"@) {
        Some(JsonV::Array(parts)) => parts.filter(|c: JsonV| speaks(c)).map_values(
            |c: JsonV| (part_words(c), named(c, "cache_control"@)),
        ),
        c => if members::plain(c).len() > 0 {
            seq![(members::plain(c), None)]
        } else {
            Seq::empty()
        },
    }
}

/// The pieces of all system messages, in order.
pub open spec fn all_pieces(messages: Seq<JsonV>) -> Seq<(Seq<char>, Option<JsonV>)>
    decreases messages.len(),
{
    if messages.len() == 0 {
        Seq::empty()
    } else if upstream_request::is_prompt(messages.last()) {
        all_pieces(messages.drop_last()) + pieces_of(messages.last())
    } else {
        all_pieces(messages.drop_last())
    }
}

/// Whether a block is a piece of the prompt.
pub open spec fn is_piece(b: JsonV, p: (Seq<char>, Option<JsonV>)) -> bool {
    &&& b is Object
    &&& b.get("type"@) == Some(JsonV::Str("text"@))
    &&& b.get("text"@) == Some(JsonV::Str(p.0))
    &&& b.get("cache_control"@) == p.1
}

spec fn are_pieces(bs: Seq<JsonV>, ps: Seq<(Seq<char>, Option<JsonV>)>) -> bool {
    bs.len() == ps.len() && forall|i: int| 0 <= i < bs.len() ==> is_piece(#[trigger] bs[i], ps[i])
}

proof fn lemma_block(t: Seq<char>, mark: Option<JsonV>)
    ensures
        is_piece(cc::text_part(t).with_some("cache_control"@, mark), (t, mark)),
        is_piece(cc::text_part(t), (t, None)),
{
    broadcast use members::group_reading;

    reveal_strlit("type");
    reveal_strlit("text");
    reveal_strlit("cache_control");
    assert("type"@.len() == 4 && "text"@.len() == 4 && "cache_control"@.len() == 13 && "text"@[1] == 'e');
    assert("type"@[1] == 'y');
    let a = cc::text_part(t);
    assert(a is Object);
    assert(a.get("type"@) == Some(JsonV::Str("text"@)));
    assert(a.get("text"@) == Some(JsonV::Str(t)));
    assert(a.get("cache_control"@) is None);
}

proof fn lemma_part_blocks(parts: Seq<JsonV>)
    ensures
        are_pieces(
            cc::part_blocks(parts),
            parts.filter(|c: JsonV| speaks(c)).map_values(|c: JsonV| (part_words(c), named(c, "cache_control"@))),
        ),
    decreases parts.len(),
{
    reveal(Seq::filter);
    let f = |c: JsonV| speaks(c);
    let g = |c: JsonV| (part_words(c), named(c, "cache_control"@));
    if parts.len() > 0 {
        lemma_part_blocks(parts.drop_last());
        let c = parts.last();
        let before = parts.drop_last().filter(f);
        lemma_block(part_words(c), named(c, "cache_control"@));
        if f(c) {
            assert(parts.filter(f) == before.push(c));
            assert(before.push(c).map_values(g) =~= before.map_values(g).push(g(c)));
            assert(cc::part_blocks(parts) == cc::part_blocks(parts.drop_last()).push(
                cc::text_part(part_words(c)).with_some("cache_control"@, named(c, "cache_control"@)),
            ));
        }
    }
}

proof fn lemma_message_blocks(msg: JsonV)
    requires
        msg.get("content"@) matches Some(j) ==> !(j is Null) && !(j is Str) && !(j is Array) ==> json::json_text(
            j,
        ).len() > 0,
    ensures
        are_pieces(cc::message_blocks(msg), pieces_of(msg)),
{
    lemma_block(members::plain(msg.get("content"@)), None);
    if let Some(JsonV::Array(parts)) = msg.get("content"@) {
        lemma_part_blocks(parts);
    }
}

/// Whether the content of each system message is a text, a list, or null, as clients send it.
pub open spec fn is_prompt_text(messages: Seq<JsonV>) -> bool {
    forall|i: int|
        0 <= i < messages.len() && upstream_request::is_prompt(#[trigger] messages[i]) ==> (match messages[i].get(
            "content"@,
        ) {
            None => true,
            Some(j) => j is Null || j is Str || j is Array,
        })
}

proof fn lemma_raw(messages: Seq<JsonV>)
    requires
        is_prompt_text(messages),
    ensures
        are_pieces(cc::raw_system_blocks(messages), all_pieces(messages)),
    decreases messages.len(),
{
    if messages.len() > 0 {
        let front = messages.drop_last();
        assert forall|i: int| 0 <= i < front.len() && upstream_request::is_prompt(#[trigger] front[i]) implies (
        match front[i].get("content"@) {
            None => true,
            Some(j) => j is Null || j is Str || j is Array,
        }) by {
            assert(front[i] == messages[i]);
        }
        lemma_raw(front);
        let m = messages.last();
        reveal_strlit("system");
        reveal_strlit("developer");
        assert("system"@.len() == 6 && "developer"@.len() == 9);
        reveal_strlit("");
        if upstream_request::is_prompt(m) {
            assert(upstream_request::is_prompt(messages[messages.len() - 1]));
            lemma_message_blocks(m);
            let a = cc::raw_system_blocks(front);
            let b = cc::message_blocks(m);
            let all = cc::raw_system_blocks(messages);
            assert(all == a + b);
            assert forall|i: int| 0 <= i < all.len() implies is_piece(#[trigger] all[i], all_pieces(messages)[i]) by {
                if i < a.len() {
                    assert(all[i] == a[i]);
                } else {
                    assert(all[i] == b[i - a.len()]);
                }
            }
        }
    }
}

/// The system prompt is sent as one text block for each piece of the system messages, in order:
/// with its text, a newline behind each but the last, and its cache breakpoint. The last alone
/// may get a breakpoint of its own, and only where the request names a cache key.
pub proof fn prompts_are_sent_whole(cfg: ConfigV, profile: DeviceProfileV, req: JsonV, date: Seq<char>)
    requires
        is_prompt_text(members::list_in(req, "messages"@)),
    ensures
        ({
            let ps = all_pieces(members::list_in(req, "messages"@));
            let bs = cc::system_blocks(req);
            &&& bs.len() == ps.len()
            &&& forall|i: int|
                0 <= i < bs.len() ==> (#[trigger] bs[i]).get("type"@) == Some(JsonV::Str("text"@)) && bs[i].get("text"@)
                    == Some(
                    JsonV::Str(
                        if i < bs.len() - 1 {
                            ps[i].0 + "\n"@
                        } else {
                            ps[i].0
                        },
                    ),
                )
            &&& forall|i: int| 0 <= i < bs.len() - 1 ==> (#[trigger] bs[i]).get("cache_control"@) == ps[i].1
            &&& bs.len() > 0 && ps.last().1 is Some ==> bs.last().get("cache_control"@) == ps.last().1
            &&& bs.len() > 0 && !(req.get("prompt_cache_key"@) matches Some(k) && said::counts(k)) ==> bs.last().get(
                "cache_control"@,
            ) == ps.last().1
        }),
{
    broadcast use members::group_reading;

    let messages = members::list_in(req, "messages"@);
    lemma_raw(messages);
    let raw = cc::raw_system_blocks(messages);
    let ps = all_pieces(messages);
    let lined = cc::with_newlines(raw);
    let bs = cc::system_blocks(req);
    reveal_strlit("type");
    reveal_strlit("text");
    reveal_strlit("cache_control");
    assert("type"@.len() == 4 && "text"@.len() == 4 && "cache_control"@.len() == 13 && "text"@[1] == 'e');
    assert("type"@[1] == 'y');
    if let Some(k) = req.get("prompt_cache_key"@) {
        said::what_counts_is_true(k);
    }
    assert forall|i: int| 0 <= i < lined.len() implies (#[trigger] lined[i]) is Object && lined[i].get("type"@) == Some(
        JsonV::Str("text"@),
    ) && lined[i].get("text"@) == Some(
        JsonV::Str(
            if i < bs.len() - 1 {
                ps[i].0 + "\n"@
            } else {
                ps[i].0
            },
        ),
    ) && lined[i].get("cache_control"@) == ps[i].1 by {
        assert(is_piece(raw[i], ps[i]));
    }
    if bs.len() > 0 {
        let l = bs.len() - 1;
        assert(lined[l].get("cache_control"@) == ps[l].1);
        if ps[l].1 is Some {
            if bs != lined {
                assert(!cc::any_marked(lined));
                assert(named(lined[l], "cache_control"@) is None);
                lemma_mark_is_real(messages, l);
                assert(false);
            }
        }
        assert forall|i: int| 0 <= i < bs.len() implies (#[trigger] bs[i]).get("type"@) == Some(JsonV::Str("text"@))
            && bs[i].get("text"@) == lined[i].get("text"@) && (i < l ==> bs[i].get("cache_control"@) == ps[i].1) by {
            assert(lined[i] is Object);
        }
    }
}

proof fn lemma_mark_is_real(messages: Seq<JsonV>, i: int)
    requires
        0 <= i < all_pieces(messages).len(),
    ensures
        all_pieces(messages)[i].1 != Some(JsonV::Null),
    decreases messages.len(),
{
    if messages.len() > 0 {
        let front = all_pieces(messages.drop_last());
        if i < front.len() {
            lemma_mark_is_real(messages.drop_last(), i);
        }
    }
}

/// Whether no part of a message has a cache breakpoint.
pub open spec fn is_unmarked(m: JsonV) -> bool {
    forall|j: int|
        0 <= j < members::list_in(m, "content"@).len() ==> named(
            #[trigger] members::list_in(m, "content"@)[j],
            "cache_control"@,
        ) is None
}

/// Where the request names a cache key and nothing in it has a cache breakpoint, the last piece of
/// the prompt gets one; where a piece of the prompt has one, it gets none.
pub proof fn cache_keys_mark_the_prompt(cfg: ConfigV, profile: DeviceProfileV, req: JsonV, date: Seq<char>)
    requires
        is_prompt_text(members::list_in(req, "messages"@)),
        req.get("prompt_cache_key"@) matches Some(k) && said::counts(k),
        all_pieces(members::list_in(req, "messages"@)).len() > 0,
    ensures
        ({
            let ps = all_pieces(members::list_in(req, "messages"@));
            let ms = members::list_in(params_of(cfg, profile, req, date), "messages"@);
            let bs = cc::system_blocks(req);
            &&& (forall|i: int| 0 <= i < ps.len() ==> (#[trigger] ps[i]).1 is None) && (forall|i: int|
                0 <= i < ms.len() ==> is_unmarked(#[trigger] ms[i])) ==> members::inner(
                bs.last(),
                "cache_control"@,
                "type"@,
            ) == Some(JsonV::Str("ephemeral"@))
            &&& (exists|i: int| 0 <= i < ps.len() && (#[trigger] ps[i]).1 is Some) ==> bs.last().get("cache_control"@)
                == ps.last().1
        }),
{
    broadcast use members::group_reading;

    let messages = members::list_in(req, "messages"@);
    requests_keep_their_terms(cfg, profile, req, date, 0);
    lemma_raw(messages);
    let raw = cc::raw_system_blocks(messages);
    let ps = all_pieces(messages);
    let lined = cc::with_newlines(raw);
    let bs = cc::system_blocks(req);
    let sent = cc::cc_messages(messages, cc::tool_names(messages));
    assert(members::list_in(params_of(cfg, profile, req, date), "messages"@) == sent);
    reveal_strlit("type");
    reveal_strlit("text");
    reveal_strlit("cache_control");
    assert("type"@.len() == 4 && "text"@.len() == 4 && "cache_control"@.len() == 13 && "text"@[1] == 'e');
    assert("type"@[1] == 'y');
    if let Some(k) = req.get("prompt_cache_key"@) {
        said::what_counts_is_true(k);
    }
    assert forall|i: int| 0 <= i < lined.len() implies (#[trigger] lined[i]) is Object && lined[i].get(
        "cache_control"@,
    ) == ps[i].1 by {
        assert(is_piece(raw[i], ps[i]));
    }
    if (forall|i: int| 0 <= i < ps.len() ==> (#[trigger] ps[i]).1 is None) && (forall|i: int|
        0 <= i < sent.len() ==> is_unmarked(#[trigger] sent[i])) {
        if cc::any_marked(lined) {
            let i = choose|i: int| 0 <= i < lined.len() && cc::cache_mark(#[trigger] lined[i]) is Some;
            assert(ps[i].1 is None);
        }
        if cc::any_message_marked(sent) {
            let i = choose|i: int| 0 <= i < sent.len() && cc::any_marked((#[trigger] sent[i]).items("content"@));
            assert(is_unmarked(sent[i]));
            let v = sent[i].items("content"@);
            let j = choose|j: int| 0 <= j < v.len() && cc::cache_mark(#[trigger] v[j]) is Some;
            assert(named(members::list_in(sent[i], "content"@)[j], "cache_control"@) is None);
        }
        let eph = JsonV::obj().with("type"@, JsonV::Str("ephemeral"@));
        assert(lined[lined.len() - 1] is Object);
        assert(bs.last() == lined.last().with("cache_control"@, eph));
        assert(eph.get("type"@) == Some(JsonV::Str("ephemeral"@)));
    }
    if exists|i: int| 0 <= i < ps.len() && (#[trigger] ps[i]).1 is Some {
        let i = choose|i: int| 0 <= i < ps.len() && (#[trigger] ps[i]).1 is Some;
        lemma_mark_is_real(messages, i);
        assert(cc::cache_mark(lined[i]) is Some);
        assert(bs == lined);
        assert(lined[lined.len() - 1].get("cache_control"@) == ps.last().1);
    }
}

/// The choice of a tool is sent in the form of the upstream: none, any, the one that is named, or
/// as the model likes; a choice in another form stays as it is.
pub proof fn choices_are_sent(tc: JsonV)
    ensures
        ({
            let w = cc::wire_tool_choice(tc);
            &&& tc == JsonV::Str("none"@) ==> w.get("type"@) == Some(JsonV::Str("none"@))
            &&& tc == JsonV::Str("required"@) ==> w.get("type"@) == Some(JsonV::Str("any"@))
            &&& tc matches JsonV::Str(s) ==> s != "none"@ && s != "required"@ ==> w.get("type"@) == Some(
                JsonV::Str("auto"@),
            )
            &&& tc.get("type"@) == Some(JsonV::Str("function"@)) ==> w.get("type"@) == Some(JsonV::Str("tool"@)) && (
            members::inner(tc, "function"@, "name"@) is Some ==> w.get("name"@) == members::inner(
                tc,
                "function"@,
                "name"@,
            ))
            &&& tc is Object && tc.get("type"@) != Some(JsonV::Str("function"@)) ==> w == tc
        }),
{
    broadcast use members::group_reading;

    reveal_strlit("type");
    reveal_strlit("name");
    assert("type"@.len() == 4 && "name"@.len() == 4 && "name"@[0] == 'n' && "type"@[0] == 't');
    reveal_strlit("none");
    reveal_strlit("required");
    assert("none"@.len() == 4 && "required"@.len() == 8);
}

/// The blocks of the system prompt are what the upstream gets as its system prompt; without any
/// it gets one blank where a placeholder is wanted, and else none.
pub proof fn prompts_are_sent(cfg: ConfigV, profile: DeviceProfileV, req: JsonV, date: Seq<char>)
    ensures
        ({
            let p = params_of(cfg, profile, req, date);
            let bs = cc::system_blocks(req);
            &&& bs.len() > 0 ==> p.get("system"@) == Some(JsonV::Array(bs))
            &&& bs.len() == 0 && !cfg.empty_system_placeholder ==> p.get("system"@) is None
            &&& bs.len() == 0 && cfg.empty_system_placeholder ==> (p.get("system"@) matches Some(JsonV::Array(v))
                && v.len() == 1 && v[0].get("text"@) == Some(JsonV::Str(seq![' '])))
        }),
{
    broadcast use members::group_reading;

    lemma_params(cfg, profile, req, date);
    reveal_strlit("model");
    reveal_strlit("messages");
    reveal_strlit("max_tokens");
    reveal_strlit("stream");
    reveal_strlit("system");
    reveal_strlit("temperature");
    reveal_strlit("reasoning_effort");
    reveal_strlit("tools");
    reveal_strlit("tool_choice");
    reveal_strlit("parallel_tool_calls");
    assert("model"@.len() == 5 && "messages"@.len() == 8 && "max_tokens"@.len() == 10 && "stream"@.len() == 6);
    assert("system"@.len() == 6 && "temperature"@.len() == 11 && "reasoning_effort"@.len() == 16);
    assert("tools"@.len() == 5);
    assert("tool_choice"@.len() == 11 && "parallel_tool_calls"@.len() == 19 && "model"@[0] == 'm');
    assert("stream"@[1] == 't');
    assert("system"@[1] == 'y' && "temperature"@[1] == 'e' && "tool_choice"@[1] == 'o' && "tools"@[0] == 't');
    reveal_strlit("type");
    reveal_strlit("text");
    assert("type"@.len() == 4 && "text"@.len() == 4 && "text"@[1] == 'e' && "type"@[1] == 'y');
    reveal_strlit(" ");
    assert(" "@ =~= seq![' ']);
    let messages = req.items("messages"@);
    let a = JsonV::obj().with("model"@, JsonV::Str(cc::model_of(req))).with(
        "messages"@,
        JsonV::Array(cc::cc_messages(messages, cc::tool_names(messages))),
    ).with("max_tokens"@, json::int_json(cc::max_tokens_of(req) as int)).with("stream"@, JsonV::Bool(true));
    let sys = cc::system_param(cc::system_blocks(req), cfg.empty_system_placeholder);
    let b = a.with_some("system"@, sys);
    assert(a.get("system"@) is None);
    assert(b.get("system"@) == sys);
    assert(b is Object);
    let c = b.with_some("temperature"@, req.get_nonnull("temperature"@)).with_some(
        "reasoning_effort"@,
        req.get_nonnull("reasoning_effort"@),
    );
    assert(c is Object);
    assert(c.get("system"@) == sys);
    let d = c.with("tools"@, JsonV::Array(req.items("tools"@).map_values(|t: JsonV| cc::wire_tool(t))));
    assert(d.get("system"@) == sys);
    let tc = match req.get("tool_choice"@) {
        Some(tc) => Some(cc::wire_tool_choice(tc)),
        None => None,
    };
    let e = d.with_some("tool_choice"@, tc);
    assert(e is Object);
    assert(e.get("system"@) == sys);
    let one = cc::text_part(" "@);
    assert(one.get("text"@) == Some(JsonV::Str(seq![' '])));
}

// ── the envelope ───────────────────────────────────────────────

/// The upstream is told the directory and the system of the profile, and the date.
pub proof fn requests_tell_their_place(cfg: ConfigV, profile: DeviceProfileV, req: JsonV, date: Seq<char>)
    ensures
        ({
            let r = cc::cc_request(cfg, profile, req, date);
            &&& members::inner(r, "config"@, "workingDir"@) == Some(JsonV::Str(profile.project_dir))
            &&& members::inner(r, "config"@, "environment"@) == Some(JsonV::Str(profile.platform))
            &&& members::inner(r, "config"@, "date"@) == Some(JsonV::Str(date))
            &&& r.get("permissionMode"@) == Some(JsonV::Str("standard"@))
            &&& cfg.cli_mode.len() > 0 ==> r.get("mode"@) == Some(JsonV::Str(cfg.cli_mode))
            &&& cfg.cli_mode.len() == 0 ==> r.get("mode"@) == Some(JsonV::Str("agent"@))
        }),
{
    broadcast use members::group_reading;

    reveal_strlit("config");
    reveal_strlit("memory");
    reveal_strlit("taste");
    reveal_strlit("skills");
    reveal_strlit("permissionMode");
    reveal_strlit("mode");
    reveal_strlit("params");
    assert("config"@.len() == 6 && "memory"@.len() == 6 && "taste"@.len() == 5 && "skills"@.len() == 6);
    assert("permissionMode"@.len() == 14 && "mode"@.len() == 4 && "params"@.len() == 6 && "config"@[0] == 'c');
    assert("memory"@[0] == 'm' && "params"@[0] == 'p' && "skills"@[0] == 's');
    let c = cc::config_json(profile, date);
    lemma_config(profile, date);
    let a = JsonV::obj().with("config"@, c).with("memory"@, JsonV::Null).with("taste"@, JsonV::Null).with(
        "skills"@,
        JsonV::Null,
    );
    assert(a.get("config"@) == Some(c));
}

proof fn lemma_config(profile: DeviceProfileV, date: Seq<char>)
    ensures
        ({
            let c = cc::config_json(profile, date);
            &&& c.get("workingDir"@) == Some(JsonV::Str(profile.project_dir))
            &&& c.get("environment"@) == Some(JsonV::Str(profile.platform))
            &&& c.get("date"@) == Some(JsonV::Str(date))
        }),
{
    broadcast use members::group_reading;

    reveal_strlit("workingDir");
    reveal_strlit("date");
    reveal_strlit("environment");
    reveal_strlit("structure");
    reveal_strlit("isGitRepo");
    reveal_strlit("currentBranch");
    reveal_strlit("mainBranch");
    reveal_strlit("gitStatus");
    reveal_strlit("recentCommits");
    assert("workingDir"@.len() == 10 && "date"@.len() == 4 && "environment"@.len() == 11 && "structure"@.len() == 9);
    assert("isGitRepo"@.len() == 9 && "currentBranch"@.len() == 13 && "mainBranch"@.len() == 10);
    assert("gitStatus"@.len() == 9);
    assert("recentCommits"@.len() == 13 && "currentBranch"@[0] == 'c' && "gitStatus"@[0] == 'g');
    assert("isGitRepo"@[0] == 'i');
    assert("mainBranch"@[0] == 'm' && "recentCommits"@[0] == 'r' && "structure"@[0] == 's' && "workingDir"@[0] == 'w');
    let a = JsonV::obj().with("workingDir"@, JsonV::Str(profile.project_dir)).with("date"@, JsonV::Str(date)).with(
        "environment"@,
        JsonV::Str(profile.platform),
    );
    assert(a.get("workingDir"@) == Some(JsonV::Str(profile.project_dir)));
    assert(a.get("date"@) == Some(JsonV::Str(date)));
    let b = a.with("structure"@, JsonV::Array(Seq::empty())).with("isGitRepo"@, JsonV::Bool(false)).with(
        "currentBranch"@,
        JsonV::Str(""@),
    );
    assert(b.get("workingDir"@) == a.get("workingDir"@) && b.get("date"@) == a.get("date"@) && b.get("environment"@)
        == a.get("environment"@));
}

/// What is sent has the members of the request as they are.
pub proof fn envelopes_keep_the_request(
    cfg: ConfigV,
    profile: DeviceProfileV,
    req: JsonV,
    date: Seq<char>,
    session_id: Seq<char>,
)
    ensures
        ({
            let r = cc::cc_request(cfg, profile, req, date);
            let sent = cc::envelope(r, session_id);
            &&& sent.get("config"@) == r.get("config"@)
            &&& sent.get("permissionMode"@) == r.get("permissionMode"@)
            &&& sent.get("mode"@) == r.get("mode"@)
            &&& sent.get("params"@) == r.get("params"@)
            &&& sent.get("params"@) is Some
        }),
{
    broadcast use members::group_reading;

    reveal_strlit("config");
    reveal_strlit("memory");
    reveal_strlit("taste");
    reveal_strlit("skills");
    reveal_strlit("permissionMode");
    reveal_strlit("threadId");
    reveal_strlit("mode");
    reveal_strlit("promptCache");
    reveal_strlit("params");
    assert("config"@.len() == 6 && "memory"@.len() == 6 && "taste"@.len() == 5 && "skills"@.len() == 6);
    assert("permissionMode"@.len() == 14 && "threadId"@.len() == 8 && "mode"@.len() == 4 && "promptCache"@.len() == 11);
    assert("params"@.len() == 6 && "config"@[0] == 'c' && "memory"@[0] == 'm' && "params"@[0] == 'p');
    assert("skills"@[0] == 's');
    let r = cc::cc_request(cfg, profile, req, date);
    lemma_params(cfg, profile, req, date);
    assert(r.get("params"@) is Some);
    let a = JsonV::obj().with_some("config"@, r.get("config"@)).with_some("memory"@, r.get("memory"@));
    assert(a is Object && a.get("config"@) == r.get("config"@));
    assert(a.get("permissionMode"@) is None && a.get("mode"@) is None && a.get("params"@) is None);
    let b = a.with_some("taste"@, r.get("taste"@)).with_some("skills"@, r.get("skills"@));
    assert(b is Object && b.get("config"@) == r.get("config"@));
    assert(b.get("permissionMode"@) is None && b.get("mode"@) is None && b.get("params"@) is None);
    let c = b.with_some("permissionMode"@, r.get("permissionMode"@)).with("threadId"@, JsonV::Str(session_id));
    assert(c is Object && c.get("config"@) == r.get("config"@) && c.get("permissionMode"@) == r.get(
        "permissionMode"@,
    ));
    assert(c.get("mode"@) is None && c.get("params"@) is None);
    let d = c.with_some("mode"@, r.get("mode"@)).with_some("promptCache"@, r.get("promptCache"@));
    assert(d is Object && d.get("mode"@) == r.get("mode"@) && d.get("params"@) is None);
    assert(d.get("config"@) == r.get("config"@) && d.get("permissionMode"@) == r.get("permissionMode"@));
}

/// Whether a header of a request has a value, and no other header has the same name.
pub open spec fn has_header(o: OutgoingV, name: Seq<char>, value: Seq<char>) -> bool {
    &&& exists|i: int| 0 <= i < o.headers.len() && #[trigger] o.headers[i] == (name, value)
    &&& forall|i: int| 0 <= i < o.headers.len() && (#[trigger] o.headers[i]).0 == name ==> o.headers[i].1 == value
}

/// A generation request goes to the address that is set, carries the client's key, the session,
/// the trace and the project, and asks for no retention exactly where the settings or the client
/// do.
pub proof fn requests_carry_their_headers(
    cfg: ConfigV,
    body: JsonV,
    api_key: Seq<char>,
    session_id: Seq<char>,
    traceparent: Seq<char>,
    zdr_header: Option<Seq<char>>,
)
    ensures
        ({
            let o = cc::forward_request_of(cfg, body, api_key, session_id, traceparent, zdr_header);
            &&& o.url == config::without_slashes(cfg.api_base) + "/alpha/generate"@
            &&& o.body == json::json_text(cc::envelope(body, session_id))
            &&& has_header(o, "authorization"@, "Bearer "@ + api_key)
            &&& has_header(o, "x-session-id"@, session_id)
            &&& has_header(o, "traceparent"@, traceparent)
            &&& has_header(o, "x-project-slug"@, cfg.project_slug)
            &&& has_header(o, "content-type"@, "application/json"@)
            &&& cfg.zdr || zdr_header == Some("1"@) ==> has_header(o, "x-cmd-zdr"@, "1"@)
            &&& !cfg.zdr && zdr_header != Some("1"@) ==> forall|i: int|
                0 <= i < o.headers.len() ==> (#[trigger] o.headers[i]).0 != "x-cmd-zdr"@
        }),
{
    reveal_strlit("content-type");
    reveal_strlit("user-agent");
    reveal_strlit("x-command-code-version");
    reveal_strlit("x-cli-environment");
    reveal_strlit("x-project-slug");
    reveal_strlit("x-taste-learning");
    reveal_strlit("x-session-id");
    reveal_strlit("authorization");
    reveal_strlit("traceparent");
    reveal_strlit("x-cmd-zdr");
    assert("content-type"@.len() == 12 && "user-agent"@.len() == 10 && "x-command-code-version"@.len() == 22);
    assert("x-cli-environment"@.len() == 17);
    assert("x-project-slug"@.len() == 14 && "x-taste-learning"@.len() == 16 && "x-session-id"@.len() == 12);
    assert("authorization"@.len() == 13);
    assert("traceparent"@.len() == 11 && "x-cmd-zdr"@.len() == 9 && "content-type"@[0] == 'c');
    assert("x-session-id"@[0] == 'x');
    let o = cc::forward_request_of(cfg, body, api_key, session_id, traceparent, zdr_header);
    let h = o.headers;
    assert(h[0] == ("content-type"@, "application/json"@));
    assert(h[4] == ("x-project-slug"@, cfg.project_slug));
    assert(h[6] == ("x-session-id"@, session_id));
    assert(h[7] == ("authorization"@, "Bearer "@ + api_key));
    assert(h[8] == ("traceparent"@, traceparent));
    if cfg.zdr || zdr_header == Some("1"@) {
        assert(h[9] == ("x-cmd-zdr"@, "1"@));
    }
}

} // verus!
