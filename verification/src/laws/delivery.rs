//! What a translation says is sent.

use vstd::prelude::*;
use crate::handlers::chat::ChatStreamV;
use crate::handlers::gather::GatherV;
use crate::handlers::messages::AnthropicStreamV;
use crate::handlers::responses::ResponsesStreamV;
use crate::http_util;
use crate::json;
use crate::json::JsonV;
use crate::laws::members;
use crate::text;
use crate::translate::anthropic;
use crate::translate::anthropic::AnthropicV;
use crate::translate::responses;
use crate::translate::responses::{EventV, ResponsesV};

verus! {

/// Every chunk is sent, in its order, each in a frame of its own.
pub proof fn chunks_are_sent(s: ChatStreamV, lines: Seq<Seq<char>>, now: i64)
    ensures
        ({
            let t = s.translator.lines(lines, now);
            let r = s.lines(lines, now);
            &&& r.next.translator == t.next
            &&& r.sent.len() == t.chunks.len()
            &&& forall|i: int|
                0 <= i < t.chunks.len() ==> #[trigger] r.sent[i] == "data: "@ + json::json_text(t.chunks[i]) + "\n\n"@
        }),
    decreases lines.len(),
{
    if lines.len() > 0 {
        chunks_are_sent(s, lines.drop_last(), now);
        let t = s.translator.lines(lines, now);
        let r = s.lines(lines, now);
        let n = s.translator.lines(lines.drop_last(), now).chunks.len();
        let before = s.lines(lines.drop_last(), now);
        assert forall|i: int| 0 <= i < t.chunks.len() implies #[trigger] r.sent[i] == "data: "@ + json::json_text(
            t.chunks[i],
        ) + "\n\n"@ by {
            if i < n {
                assert(r.sent[i] == before.sent[i]);
            }
        }
    }
}

proof fn lemma_joined(v: Seq<Seq<char>>)
    ensures
        text::joined(v, ""@) == members::run_on(v),
    decreases v.len(),
{
    reveal_strlit("");
    reveal_with_fuel(members::run_on, 2);
    if v.len() == 1 {
        assert(members::run_on(v) =~= v[0]);
    } else if v.len() > 1 {
        lemma_joined(v.drop_last());
        assert(text::joined(v, ""@) =~= members::run_on(v));
    }
}

proof fn lemma_first(v: Seq<Seq<char>>, front: Seq<char>)
    requires
        v.len() > 0,
    ensures
        members::run_on(v.update(0, front + v[0])) == front + members::run_on(v),
    decreases v.len(),
{
    let w = v.update(0, front + v[0]);
    reveal_with_fuel(members::run_on, 2);
    if v.len() == 1 {
        assert(members::run_on(w) =~= front + members::run_on(v));
    } else {
        assert(w.drop_last() =~= v.drop_last().update(0, front + v[0]));
        lemma_first(v.drop_last(), front);
        assert(members::run_on(w) =~= front + members::run_on(v));
    }
}

/// Pieces are all sent, in their order: those of an error before anything else are held back, and
/// the first that are sent come behind the beginning of the message and what was held back.
pub proof fn pieces_are_sent(s: AnthropicStreamV, pieces: Seq<Seq<char>>, is_error: bool)
    ensures
        ({
            let r = s.deliver(pieces, is_error);
            let sent = members::run_on(r.sent);
            &&& s.started ==> r.sent == pieces && r.next == s
            &&& !s.started && !is_error && pieces.len() > 0 ==> r.next.started && r.next.held.len() == 0 && sent
                == s.translator.message_start_text() + members::run_on(s.held) + members::run_on(pieces)
            &&& !s.started && is_error ==> r.sent.len() == 0 && !r.next.started && r.next.held == s.held + pieces
            &&& r.next.translator == s.translator
        }),
{
    if !s.started && !is_error && pieces.len() > 0 {
        lemma_joined(s.held);
        lemma_first(pieces, s.translator.message_start_text() + text::joined(s.held, ""@));
    } else if s.started && pieces.len() == 0 {
        assert(s.deliver(pieces, is_error).sent =~= pieces);
    } else if !s.started && pieces.len() == 0 {
        assert(s.held + pieces =~= s.held);
    }
}

proof fn lemma_names_stay(t: AnthropicV, line: Seq<char>, uuid: Seq<char>)
    ensures
        t.line(line, uuid).next.model == t.model,
        t.line(line, uuid).next.message_id == t.message_id,
{
}

/// What a client has read of a stream and what is held back for it are, put together, the beginning
/// of the message and all that the translation says.
pub proof fn streams_are_sent_whole(
    model: Seq<char>,
    message_id: Seq<char>,
    lines: Seq<Seq<char>>,
    uuids: Seq<Seq<char>>,
)
    ensures
        ({
            let t = AnthropicV::start(model, message_id);
            let r = AnthropicStreamV::start(model, message_id).lines(lines, uuids);
            let said = members::run_on(anthropic::piece_texts(t.lines(lines, uuids).pieces));
            &&& r.next.translator == t.lines(lines, uuids).next
            &&& r.next.started ==> members::run_on(r.sent) == t.message_start_text() + said
            &&& !r.next.started ==> r.sent.len() == 0 && members::run_on(r.next.held) == said
            &&& r.next.translator.model == model && r.next.translator.message_id == message_id
        }),
    decreases lines.len(),
{
    let t = AnthropicV::start(model, message_id);
    let s = AnthropicStreamV::start(model, message_id);
    if lines.len() > 0 {
        let front = lines.drop_last();
        let k = lines.len() - 1;
        streams_are_sent_whole(model, message_id, front, uuids);
        let b = s.lines(front, uuids);
        let tb = t.lines(front, uuids);
        let step = tb.next.line(lines.last(), uuids[k]);
        lemma_names_stay(tb.next, lines.last(), uuids[k]);
        let mid = AnthropicStreamV { translator: step.next, ..b.next };
        let ps = anthropic::piece_texts(step.pieces);
        let bad = step.next.last_cc_event == "error"@;
        pieces_are_sent(mid, ps, bad);
        let d = mid.deliver(ps, bad);
        let all = t.lines(lines, uuids).pieces;
        assert(anthropic::piece_texts(all) =~= anthropic::piece_texts(tb.pieces) + ps);
        members::lemma_run_on_sum(anthropic::piece_texts(tb.pieces), ps);
        members::lemma_run_on_sum(b.sent, d.sent);
        members::lemma_run_on_sum(b.next.held, ps);
        let said = members::run_on(anthropic::piece_texts(all));
        let start = t.message_start_text();
        if b.next.started {
            assert(members::run_on(b.sent + d.sent) =~= start + said);
        } else if ps.len() == 0 {
            assert(members::run_on(ps) =~= Seq::<char>::empty());
            assert(b.sent + d.sent =~= Seq::<Seq<char>>::empty());
            assert(said =~= members::run_on(b.next.held));
        } else if bad {
            assert(b.sent + d.sent =~= Seq::<Seq<char>>::empty());
        } else {
            assert(b.sent + d.sent =~= d.sent);
            assert(members::run_on(d.sent) =~= start + said);
        }
    } else {
        assert(anthropic::piece_texts(t.lines(lines, uuids).pieces) =~= Seq::<Seq<char>>::empty());
        assert(s.held =~= Seq::<Seq<char>>::empty());
    }
}

/// A message stream that began ends with all that the translation says at its end; one that did not
/// begin, and has something to say, begins with it.
pub proof fn ends_are_sent(s: AnthropicStreamV)
    ensures
        ({
            let last = anthropic::piece_texts(s.translator.finished().pieces);
            let c = s.conclusion();
            &&& s.started ==> c.sent == last && c.failure is None
            &&& !s.started && c.failure is None && last.len() > 0 ==> members::run_on(c.sent)
                == s.translator.message_start_text() + members::run_on(s.held) + members::run_on(last)
            &&& c.failure is Some ==> c.sent.len() == 0
        }),
{
    pieces_are_sent(s, anthropic::piece_texts(s.translator.finished().pieces), false);
}

/// A response stream that began ends with all that the translation says at its end, or with the
/// error of the upstream.
pub proof fn response_ends_are_sent(s: ResponsesStreamV)
    requires
        s.translator.created_sent,
    ensures
        ({
            let t = s.translator;
            let c = s.conclusion();
            &&& c.failure is None
            &&& t.upstream_error is None ==> c.sent == responses::texts_from(t.seq, t.finished().events)
            &&& t.upstream_error matches Some(e) ==> c.sent == responses::texts_from(
                t.seq,
                t.failed(e.error_message()).events,
            )
        }),
{
}

/// A response that is given up tells the message.
pub proof fn given_up_responses_tell_why(t: ResponsesV, message: Seq<char>)
    requires
        t.created_sent,
        message.len() > 0,
    ensures
        ({
            let es = t.failed(message).events;
            &&& es.len() == 1
            &&& es[0] matches EventV::Failed { response } && members::inner(response, "error"@, "message"@) == Some(
                JsonV::Str(message),
            )
        }),
{
    crate::laws::response_stream::failures_tell_their_message(t, JsonV::Str(message));
}

/// Every event is sent, in its order, under its name and with its data.
pub proof fn events_are_sent(first: u64, es: Seq<EventV>, i: int)
    requires
        0 <= i < es.len(),
        first + es.len() <= u64::MAX,
    ensures
        responses::texts_from(first, es).len() == es.len(),
        responses::texts_from(first, es)[i] == responses::numbered_text(
            (first + i) as u64,
            es[i].name(),
            es[i].data(),
        ),
{
    lemma_number(first, i as nat);
}

proof fn lemma_number(first: u64, n: nat)
    requires
        first + n <= u64::MAX,
    ensures
        responses::number_after(first, n) == first + n,
    decreases n,
{
    if n > 0 {
        lemma_number(first, (n - 1) as nat);
    }
}

/// What is left when the upstream ends is a line too.
pub proof fn what_is_left_is_a_line(
    c: ChatStreamV,
    m: AnthropicStreamV,
    r: ResponsesStreamV,
    g: GatherV,
    t: Seq<char>,
    now: i64,
    uuid: Seq<char>,
    call_uuid: Seq<char>,
)
    requires
        vstd::utf8::encode_utf8(t).len() > 0,
    ensures
        c.buffer == vstd::utf8::encode_utf8(t) ==> c.ending(now).sent == c.line(t, now).sent + c.line(
            t,
            now,
        ).next.conclusion().sent,
        m.buffer == vstd::utf8::encode_utf8(t) ==> m.ending(uuid).sent == m.line(t, uuid).sent + m.line(
            t,
            uuid,
        ).next.conclusion().sent,
        r.buffer == vstd::utf8::encode_utf8(t) ==> r.ending(uuid, call_uuid).sent == r.line(t, uuid, call_uuid).sent
            + r.line(t, uuid, call_uuid).next.conclusion().sent,
        g.buffer == vstd::utf8::encode_utf8(t) ==> g.ended(uuid) == g.line(t, uuid),
        c.buffer.len() == 0 ==> c.ending(now).sent == c.conclusion().sent,
        m.buffer.len() == 0 ==> m.ending(uuid).sent == m.conclusion().sent,
        r.buffer.len() == 0 ==> r.ending(uuid, call_uuid).sent == r.conclusion().sent,
        g.buffer.len() == 0 ==> g.ended(uuid) == g,
{
    vstd::utf8::encode_utf8_valid_utf8(t);
    vstd::utf8::encode_utf8_decode_utf8(t);
    assert(c.buffer.len() == 0 ==> c.ending(now).sent =~= c.conclusion().sent);
    assert(m.buffer.len() == 0 ==> m.ending(uuid).sent =~= m.conclusion().sent);
    assert(r.buffer.len() == 0 ==> r.ending(uuid, call_uuid).sent =~= r.conclusion().sent);
}

/// A line of text is read as that text, and the bytes behind it as the lines behind it.
pub proof fn lines_are_read(s: Seq<char>, rest: Seq<u8>)
    requires
        forall|i: int| 0 <= i < vstd::utf8::encode_utf8(s).len() ==> #[trigger] vstd::utf8::encode_utf8(s)[i] != 10,
    ensures
        ({
            let b = vstd::utf8::encode_utf8(s) + seq![10u8] + rest;
            &&& http_util::line_texts(http_util::lines(b)) == seq![s] + http_util::line_texts(http_util::lines(rest))
            &&& http_util::last_line(b) == http_util::last_line(rest)
        }),
{
    let e = vstd::utf8::encode_utf8(s);
    let b = e + seq![10u8] + rest;
    lemma_newline(e, rest);
    let n = e.len() as int;
    assert(b.take(n) =~= e);
    assert(b.skip(n + 1) =~= rest);
    vstd::utf8::encode_utf8_valid_utf8(s);
    vstd::utf8::encode_utf8_decode_utf8(s);
    assert(http_util::line_texts(http_util::lines(b)) =~= seq![s] + http_util::line_texts(http_util::lines(rest)));
}

proof fn lemma_newline(e: Seq<u8>, rest: Seq<u8>)
    requires
        forall|i: int| 0 <= i < e.len() ==> #[trigger] e[i] != 10,
    ensures
        http_util::newline_at(e + seq![10u8] + rest) == e.len(),
    decreases e.len(),
{
    let b = e + seq![10u8] + rest;
    if e.len() > 0 {
        assert(b[0] == e[0]);
        let f = e.skip(1);
        assert forall|i: int| 0 <= i < f.len() implies #[trigger] f[i] != 10 by {
            assert(f[i] == e[i + 1]);
        }
        lemma_newline(f, rest);
        assert(b.skip(1) =~= f + seq![10u8] + rest);
    } else {
        assert(b[0] == 10);
    }
}

} // verus!
