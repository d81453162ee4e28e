//! Lines of the log.

use vstd::prelude::*;
use crate::json;
use crate::json::{json_string, Json, JsonV};
use crate::text;
use crate::text::{cat, cat5};
use crate::util;

verus! {

/// `chrono::DateTime::to_rfc3339_opts` of the current time, with milliseconds and `Z` for the
/// zone: a time of that form. Which time it is depends on the clock alone.
#[verifier::external_body]
fn now_rfc3339() -> (r: String)
    ensures
        zulu(r@),
{
    chrono::Utc::now().to_rfc3339_opts(chrono::SecondsFormat::Millis, true)
}

/// The form of a time in UTC with milliseconds, such as `2024-05-06T07:08:09.123Z`.
pub open spec fn zulu(ts: Seq<char>) -> bool {
    let n = ts.len() - 14;
    &&& n >= 10
    &&& util::date_text(ts.take(n))
    &&& ts[n] == 'T' && ts[n + 3] == ':' && ts[n + 6] == ':' && ts[n + 9] == '.' && ts[n + 13] == 'Z'
    &&& forall|i: int|
        n < i < n + 13 && i != n + 3 && i != n + 6 && i != n + 9 ==> text::is_digit_char(#[trigger] ts[i])
}

/// A line of the log: when, how grave, what, and data that belongs to it.
pub open spec fn log_line(ts: Seq<char>, level: Seq<char>, msg: Seq<char>, data: Option<JsonV>) -> Seq<char> {
    let plain = "["@ + ts + "] ["@ + level + "] "@ + msg;
    match data {
        Some(j) => plain + " "@ + json::json_text(j),
        None => plain,
    }
}

/// The line of the log for an entry at a time.
pub fn render_at(ts: &str, level: &str, msg: &str, data: Option<&Json>) -> (r: String)
    ensures
        r@ == log_line(ts@, level@, msg@, json::opt_json(data)),
{
    let head = cat5("[", ts, "] [", level, "] ");
    let plain = cat(head.as_str(), msg);
    match data {
        Some(j) => cat(cat(plain.as_str(), " ").as_str(), json_string(j).as_str()),
        None => plain,
    }
}

/// The line of the log for an entry now.
pub fn render(level: &str, msg: &str, data: Option<&Json>) -> (r: String)
    ensures
        exists|ts: Seq<char>| zulu(ts) && r@ == #[trigger] log_line(ts, level@, msg@, json::opt_json(data)),
{
    let ts = now_rfc3339();
    render_at(ts.as_str(), level, msg, data)
}

/// An entry of the log.
#[derive(Debug)]
pub struct LogEntry {
    pub level: &'static str,
    pub message: &'static str,
    pub data: Option<Json>,
}

/// The model of an entry.
pub struct LogEntryV {
    pub level: Seq<char>,
    pub message: Seq<char>,
    pub data: Option<JsonV>,
}

impl LogEntry {
    pub open spec fn view(&self) -> LogEntryV {
        LogEntryV { level: self.level@, message: self.message@, data: json::owned_json(self.data) }
    }
}

/// The model of entries.
pub open spec fn entries(v: Seq<LogEntry>) -> Seq<LogEntryV> {
    v.map_values(|e: LogEntry| e@)
}

pub(crate) fn push_entry(v: &mut Vec<LogEntry>, level: &'static str, message: &'static str, data: Option<Json>)
    ensures
        entries(final(v)@) == entries(old(v)@).push(
            LogEntryV { level: level@, message: message@, data: json::owned_json(data) },
        ),
{
    let e = LogEntry { level, message, data };
    let ghost one = e@;
    v.push(e);
    assert(entries(v@) =~= entries(old(v)@).push(one));
}

} // verus!
