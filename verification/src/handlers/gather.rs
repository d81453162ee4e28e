//! The upstream events of an answer that is not streamed, put together.

use vstd::prelude::*;
use crate::errors;
use crate::errors::{
    incomplete_upstream_detail, map_cc_event_error, map_finish_reason, show, MappedError, MappedErrorV,
};
use crate::http_util;
use crate::http_util::{rest_text, take_lines};
use crate::json;
use crate::json::{no_json, push_json, Json, JsonV};
use crate::text;
use crate::text::{cat, no_texts, same};
use crate::translate::anthropic_request as request;
use crate::translate::anthropic_request::make_function_call;
use crate::translate::events;
use crate::translate::events::{get_usage, read_event};
use crate::translate::responses_request;
use crate::util;
use crate::util::{nullish_num, random_uuid, random_uuids, short_id};

verus! {

/// What the events of an answer are put together to.
pub struct Gather {
    /// Whether a line that begins with a colon is a comment.
    pub comments: bool,
    /// Whether the usage of a step counts where there is no total.
    pub step_usage: bool,
    pub buffer: Vec<u8>,
    pub full_text: String,
    pub thinking: String,
    pub finish_reason: String,
    pub saw_finish: bool,
    pub usage: Option<Json>,
    pub tool_calls: Vec<Json>,
    pub upstream_error: Option<MappedError>,
    pub last_event: String,
}

/// The model of it.
pub struct GatherV {
    pub comments: bool,
    pub step_usage: bool,
    pub buffer: Seq<u8>,
    pub full_text: Seq<char>,
    pub thinking: Seq<char>,
    pub finish_reason: Seq<char>,
    pub saw_finish: bool,
    pub usage: Option<JsonV>,
    pub tool_calls: Seq<JsonV>,
    pub upstream_error: Option<MappedErrorV>,
    pub last_event: Seq<char>,
}

/// The arguments of a tool call: a text as it stands, else the input as JSON, and an empty object
/// where there is none.
pub open spec fn input_text(e: JsonV) -> Seq<char> {
    match e.get_nonnull("input"@) {
        Some(j) => errors::shown(j),
        None => "{}"@,
    }
}

fn input_of(e: &Json) -> (r: String)
    ensures
        r@ == input_text(e@),
{
    match e.get_nonnull("input") {
        Some(j) => show(j),
        None => "{}".to_owned(),
    }
}

impl GatherV {
    pub open spec fn start(comments: bool, step_usage: bool) -> GatherV {
        GatherV {
            comments,
            step_usage,
            buffer: Seq::empty(),
            full_text: Seq::empty(),
            thinking: Seq::empty(),
            finish_reason: "stop"@,
            saw_finish: false,
            usage: None,
            tool_calls: Seq::empty(),
            upstream_error: None,
            last_event: Seq::empty(),
        }
    }

    /// A tool call; `uuid` makes its identifier where the event names none.
    pub open spec fn call(e: JsonV, uuid: Seq<char>) -> JsonV {
        request::function_call(
            match e.get_nonempty("toolCallId"@) {
                Some(id) => id,
                None => responses_request::fresh_call_id(uuid),
            },
            e.str_or("toolName"@, ""@),
            input_text(e),
        )
    }

    pub open spec fn usage_of(self, e: JsonV) -> Option<JsonV> {
        if self.step_usage {
            events::usage_in(e)
        } else {
            e.get_object("totalUsage"@)
        }
    }

    /// What an event adds. Events without content, and unknown ones, add nothing.
    pub open spec fn step(self, e: JsonV, uuid: Seq<char>) -> GatherV {
        let ty = events::type_of(e);
        let s = GatherV { last_event: ty, ..self };
        if ty == "text-delta"@ {
            GatherV { full_text: s.full_text + e.str_or("text"@, ""@), ..s }
        } else if ty == "reasoning-delta"@ {
            GatherV { thinking: s.thinking + e.str_or("text"@, ""@), ..s }
        } else if ty == "tool-call"@ {
            GatherV { tool_calls: s.tool_calls.push(GatherV::call(e, uuid)), ..s }
        } else if ty == "finish-step"@ || ty == "finish"@ {
            GatherV {
                saw_finish: true,
                finish_reason: errors::finish_reason_of(e.str_or("finishReason"@, "stop"@)),
                usage: match s.usage_of(e) {
                    Some(u) => Some(u),
                    None => s.usage,
                },
                ..s
            }
        } else if ty == "error"@ {
            GatherV { upstream_error: Some(errors::event_error(e)), ..s }
        } else {
            s
        }
    }

    pub open spec fn line(self, line: Seq<char>, uuid: Seq<char>) -> GatherV {
        match events::event_in(line, self.comments) {
            Some(e) => self.step(e, uuid),
            None => self,
        }
    }

    /// What lines add, with a UUID for each.
    pub open spec fn lines(self, lines: Seq<Seq<char>>, uuids: Seq<Seq<char>>) -> GatherV
        decreases lines.len(),
    {
        if lines.len() == 0 {
            self
        } else {
            self.lines(lines.drop_last(), uuids).line(lines.last(), uuids[lines.len() - 1])
        }
    }

    /// The lines that are complete with a piece of the response, and what is left then.
    pub open spec fn new_lines(self, chunk: Seq<u8>) -> Seq<Seq<char>> {
        http_util::line_texts(http_util::lines(self.buffer + chunk))
    }

    pub open spec fn fed(self, chunk: Seq<u8>) -> GatherV {
        GatherV { buffer: http_util::last_line(self.buffer + chunk), ..self }
    }

    /// The end of the response: what is left is a line too.
    pub open spec fn ended(self, uuid: Seq<char>) -> GatherV {
        if self.buffer.len() > 0 {
            self.line(text::utf8_lossy(self.buffer), uuid)
        } else {
            self
        }
    }

    pub open spec fn incomplete(self) -> Option<Seq<char>> {
        errors::incomplete_detail_of(self.saw_finish, Some(self.finish_reason))
    }

    /// Whether there is neither text nor thinking nor a call.
    pub open spec fn is_empty(self) -> bool {
        self.full_text.len() == 0 && self.thinking.len() == 0 && self.tool_calls.len() == 0
    }

    /// Whether the usage report says that there was no output.
    pub open spec fn reports_no_output(self) -> bool {
        match self.usage {
            Some(u) => util::integer_in(u.get("outputTokens"@)) == Some(0i64),
            None => false,
        }
    }

    /// Whether there was no output: none is reported, or there is no content.
    pub open spec fn without_output(self) -> bool {
        self.is_empty() || self.reports_no_output()
    }
}

impl Gather {
    pub open spec fn view(&self) -> GatherV {
        GatherV {
            comments: self.comments,
            step_usage: self.step_usage,
            buffer: self.buffer@,
            full_text: self.full_text@,
            thinking: self.thinking@,
            finish_reason: self.finish_reason@,
            saw_finish: self.saw_finish,
            usage: json::owned_json(self.usage),
            tool_calls: json::models(self.tool_calls@),
            upstream_error: errors::opt_mapped(self.upstream_error),
            last_event: self.last_event@,
        }
    }

    pub fn new(comments: bool, step_usage: bool) -> (r: Self)
        ensures
            r@ == GatherV::start(comments, step_usage),
    {
        let r = Gather {
            comments,
            step_usage,
            buffer: Vec::new(),
            full_text: String::new(),
            thinking: String::new(),
            finish_reason: "stop".to_owned(),
            saw_finish: false,
            usage: None,
            tool_calls: no_json(),
            upstream_error: None,
            last_event: String::new(),
        };
        assert(r.buffer@ =~= Seq::<u8>::empty());
        assert(r.full_text@ =~= Seq::<char>::empty());
        assert(r.thinking@ =~= Seq::<char>::empty());
        assert(r.last_event@ =~= Seq::<char>::empty());
        r
    }

    fn finish(&mut self, e: &Json)
        ensures
            final(self)@ == (GatherV {
                saw_finish: true,
                finish_reason: errors::finish_reason_of(e@.str_or("finishReason"@, "stop"@)),
                usage: match old(self)@.usage_of(e@) {
                    Some(u) => Some(u),
                    None => old(self)@.usage,
                },
                ..old(self)@
            }),
    {
        self.saw_finish = true;
        self.finish_reason = map_finish_reason(e.str_or("finishReason", "stop"));
        let u = if self.step_usage {
            get_usage(e)
        } else {
            e.get_object("totalUsage")
        };
        if let Some(u) = u {
            self.usage = Some(u.clone());
        }
    }

    /// Takes an event; `uuid` makes the identifier of a tool call that names none.
    pub fn on_event(&mut self, e: &Json, uuid: &str)
        ensures
            final(self)@ == old(self)@.step(e@, uuid@),
    {
        let ty = e.str_or("type", "");
        self.last_event = ty.to_owned();
        if same(ty, "text-delta") {
            self.full_text.append(e.str_or("text", ""));
        } else if same(ty, "reasoning-delta") {
            self.thinking.append(e.str_or("text", ""));
        } else if same(ty, "tool-call") {
            let id = match e.get_nonempty("toolCallId") {
                Some(id) => id.to_owned(),
                None => cat("call_", short_id(uuid, 8).as_str()),
            };
            let call = make_function_call(id.as_str(), e.str_or("toolName", ""), input_of(e).as_str());
            push_json(&mut self.tool_calls, call);
        } else if same(ty, "finish-step") || same(ty, "finish") {
            self.finish(e);
        } else if same(ty, "error") {
            self.upstream_error = Some(map_cc_event_error(e));
        }
    }

    pub fn on_line(&mut self, line: &str, uuid: &str)
        ensures
            final(self)@ == old(self)@.line(line@, uuid@),
    {
        if let Some(e) = read_event(line, self.comments) {
            self.on_event(&e, uuid);
        }
    }

    /// Takes lines, with a UUID for each.
    pub fn on_lines(&mut self, lines: &Vec<String>, uuids: &Vec<String>)
        requires
            uuids@.len() == lines@.len(),
        ensures
            final(self)@ == old(self)@.lines(text::texts(lines@), text::texts(uuids@)),
    {
        let ghost start = self@;
        let ghost all = text::texts(lines@);
        let ghost ids = text::texts(uuids@);
        let mut i: usize = 0;
        assert(all.take(0) =~= Seq::<Seq<char>>::empty());
        while i < lines.len()
            invariant
                i <= lines@.len(),
                uuids@.len() == lines@.len(),
                all == text::texts(lines@),
                ids == text::texts(uuids@),
                self@ == start.lines(all.take(i as int), ids),
            decreases lines.len() - i,
        {
            assert(all.take(i + 1).drop_last() =~= all.take(i as int));
            assert(all.take(i + 1).last() == all[i as int]);
            self.on_line(lines[i].as_str(), uuids[i].as_str());
            i = i + 1;
        }
        assert(all.take(i as int) =~= all);
    }

    /// Takes a piece of the response; identifiers are random.
    pub fn on_chunk(&mut self, chunk: &[u8])
        ensures
            exists|uuids: Seq<Seq<char>>|
                util::uuid_list(uuids, old(self)@.new_lines(chunk@).len()) && final(self)@
                    == #[trigger] old(self)@.fed(chunk@).lines(old(self)@.new_lines(chunk@), uuids),
    {
        let ghost before = self@;
        let mut buf: Vec<u8> = Vec::new();
        std::mem::swap(&mut self.buffer, &mut buf);
        buf.extend_from_slice(chunk);
        assert(buf@ =~= before.buffer + chunk@);
        let mut lines = no_texts();
        take_lines(&mut buf, &mut lines);
        self.buffer = buf;
        let ghost ls = before.new_lines(chunk@);
        assert(text::texts(lines@) =~= ls);
        assert(lines@.len() == text::texts(lines@).len());
        let uuids = random_uuids(lines.len());
        self.on_lines(&lines, &uuids);
    }

    /// Takes the end of the response; `uuid` makes the identifier of a last tool call.
    pub fn on_end_with(&mut self, uuid: &str)
        ensures
            final(self)@ == old(self)@.ended(uuid@),
    {
        if self.buffer.len() > 0 {
            let rest = rest_text(&self.buffer);
            self.on_line(rest.as_str(), uuid);
        }
    }

    /// Takes the end of the response.
    pub fn on_end(&mut self)
        ensures
            exists|uuid: Seq<char>| util::uuid_text(uuid) && final(self)@ == #[trigger] old(self)@.ended(uuid),
    {
        let uuid = random_uuid();
        self.on_end_with(uuid.as_str());
    }

    /// Why the answer is not whole, if it is not.
    pub fn incomplete_detail(&self) -> (r: Option<&'static str>)
        ensures
            text::str_opt(r) == self@.incomplete(),
    {
        incomplete_upstream_detail(self.saw_finish, Some(self.finish_reason.as_str()))
    }

    fn reported_nothing(&self) -> (r: bool)
        ensures
            r == self@.reports_no_output(),
    {
        match &self.usage {
            Some(u) => match nullish_num(u.get("outputTokens")) {
                Some(n) => n == 0,
                None => false,
            },
            None => false,
        }
    }

    pub(crate) fn nothing(&self) -> (r: bool)
        ensures
            r == self@.without_output(),
    {
        (self.full_text.as_str().is_empty() && self.thinking.as_str().is_empty() && self.tool_calls.len() == 0)
            || self.reported_nothing()
    }
}

// ── laws ───────────────────────────────────────────────────────

impl GatherV {
    /// What a piece of the response adds, with a UUID for each line that it completes.
    pub open spec fn chunk(self, chunk: Seq<u8>, uuids: Seq<Seq<char>>) -> GatherV {
        self.fed(chunk).lines(self.new_lines(chunk), uuids)
    }

    spec fn with_buffer(self, buffer: Seq<u8>) -> GatherV {
        GatherV { buffer, ..self }
    }
}

proof fn lemma_lines_buffer(s: GatherV, buffer: Seq<u8>, lines: Seq<Seq<char>>, uuids: Seq<Seq<char>>)
    ensures
        s.with_buffer(buffer).lines(lines, uuids) == s.lines(lines, uuids).with_buffer(buffer),
        s.lines(lines, uuids).buffer == s.buffer,
    decreases lines.len(),
{
    if lines.len() > 0 {
        lemma_lines_buffer(s, buffer, lines.drop_last(), uuids);
    }
}

proof fn lemma_lines_uuids(s: GatherV, lines: Seq<Seq<char>>, u: Seq<Seq<char>>, w: Seq<Seq<char>>)
    requires
        u.len() >= lines.len(),
        w.len() >= lines.len(),
        u.take(lines.len() as int) == w.take(lines.len() as int),
    ensures
        s.lines(lines, u) == s.lines(lines, w),
    decreases lines.len(),
{
    if lines.len() > 0 {
        let n = lines.len() - 1;
        assert(u.take(n) =~= u.take(n + 1).take(n));
        assert(w.take(n) =~= w.take(n + 1).take(n));
        assert(u[n] == u.take(n + 1)[n]);
        assert(w[n] == w.take(n + 1)[n]);
        lemma_lines_uuids(s, lines.drop_last(), u, w);
    }
}

proof fn lemma_lines_sum(s: GatherV, a: Seq<Seq<char>>, b: Seq<Seq<char>>, ua: Seq<Seq<char>>, ub: Seq<Seq<char>>)
    requires
        ua.len() == a.len(),
        ub.len() >= b.len(),
    ensures
        s.lines(a + b, ua + ub) == s.lines(a, ua).lines(b, ub),
    decreases b.len(),
{
    if b.len() == 0 {
        assert(a + b =~= a);
        assert((ua + ub).take(a.len() as int) =~= ua.take(a.len() as int));
        lemma_lines_uuids(s, a, ua + ub, ua);
    } else {
        lemma_lines_sum(s, a, b.drop_last(), ua, ub);
        assert((a + b).drop_last() =~= a + b.drop_last());
        assert((a + b).last() == b.last());
        assert((ua + ub)[(a + b).len() - 1] == ub[b.len() - 1]);
    }
}

/// It makes no difference to the answer how the upstream response was cut into pieces.
pub proof fn cuts_make_no_difference(
    s: GatherV,
    a: Seq<u8>,
    b: Seq<u8>,
    ua: Seq<Seq<char>>,
    ub: Seq<Seq<char>>,
)
    requires
        ua.len() == s.new_lines(a).len(),
        ub.len() == s.chunk(a, ua).new_lines(b).len(),
    ensures
        s.chunk(a + b, ua + ub) == s.chunk(a, ua).chunk(b, ub),
{
    let x = s.chunk(a, ua);
    let la = s.new_lines(a);
    lemma_lines_buffer(s.fed(a), s.buffer, la, ua);
    let lb = x.new_lines(b);
    http_util::lines_ignore_cuts(s.buffer + a, b);
    assert(s.buffer + a + b =~= s.buffer + (a + b));
    assert(s.new_lines(a + b) =~= la + lb);
    let last = http_util::last_line(s.buffer + (a + b));
    lemma_lines_sum(s.fed(a + b), la, lb, ua, ub);
    lemma_lines_buffer(s.fed(a), last, la, ua);
    assert(s.fed(a).with_buffer(last) == s.fed(a + b));
    assert(x.fed(b) == x.with_buffer(last));
}

} // verus!
