//! Time, randomness, hashes, API keys and small readings of JSON values.

use vstd::prelude::*;
use crate::float;
use crate::float::{Double, FloatV};
use crate::json;
use crate::json::{json_string, parse_json, Json, JsonV, Number};
use crate::text;
use crate::text::{
    cat, cat3, cat5, chars_of, decimal_usize, index_of_any, join, matches_at, remove_char, run_end, runs_of,
    strip_prefix, take_chars, text_between, to_lowercase, trim, Class,
};

verus! {

// ── clock ──────────────────────────────────────────────────────

/// The largest number of seconds since 1970 that a `chrono` time can stand for is below this.
pub const SECONDS_BOUND: i64 = 10_000_000_000_000;

/// `chrono::Utc::now().timestamp()`: the seconds since the start of 1970. `chrono` has no time
/// beyond the year 262142, and its clock does not go below 1970.
#[verifier::external_body]
pub fn now_unix() -> (r: i64)
    ensures
        0 <= r < SECONDS_BOUND,
{
    chrono::Utc::now().timestamp()
}

/// `chrono::Utc::now().timestamp_millis()`: the milliseconds since the start of 1970.
#[verifier::external_body]
pub(crate) fn now_millis() -> (r: i64)
    ensures
        0 <= r < SECONDS_BOUND * 1000,
{
    chrono::Utc::now().timestamp_millis()
}

/// The form of a date: a year of at least four digits, with a sign where it has more, and two
/// digits each for month and day, with `-` between them.
pub open spec fn date_text(s: Seq<char>) -> bool {
    let n = s.len() - 6;
    &&& n >= 4
    &&& forall|i: int| 0 <= i < n ==> text::is_digit_char(#[trigger] s[i]) || (i == 0 && n > 4 && s[i] == '+')
    &&& s[n] == '-'
    &&& text::is_digit_char(s[n + 1]) && text::is_digit_char(s[n + 2])
    &&& s[n + 3] == '-'
    &&& text::is_digit_char(s[n + 4]) && text::is_digit_char(s[n + 5])
}

/// `chrono`'s `%Y-%m-%d` of the current time: the date in UTC, in the form of one. Which date it
/// is depends on the clock alone.
#[verifier::external_body]
pub fn date_str_utc() -> (r: String)
    ensures
        date_text(r@),
{
    chrono::Utc::now().format("%Y-%m-%d").to_string()
}

// ── randomness ─────────────────────────────────────────────────

pub open spec fn is_lower_hex(c: char) -> bool {
    '0' <= c <= '9' || 'a' <= c <= 'f'
}

/// The form of a random UUID: groups of 8, 4, 4, 4 and 12 hexadecimal digits with `-` between
/// them, version 4, variant 1.
pub open spec fn uuid_text(s: Seq<char>) -> bool {
    &&& s.len() == 36
    &&& forall|i: int|
        0 <= i < 36 ==> if i == 8 || i == 13 || i == 18 || i == 23 {
            #[trigger] s[i] == '-'
        } else {
            is_lower_hex(s[i])
        }
    &&& s[14] == '4'
    &&& (s[19] == '8' || s[19] == '9' || s[19] == 'a' || s[19] == 'b')
}

/// `uuid::Uuid::new_v4` in its display form: a random UUID in lower case with hyphens.
#[verifier::external_body]
pub fn random_uuid() -> (r: String)
    ensures
        uuid_text(r@),
{
    uuid::Uuid::new_v4().to_string()
}

/// `rand::Rng::fill` on the thread's generator: that many random bytes.
#[verifier::external_body]
fn random_bytes(n: usize) -> (r: Vec<u8>)
    ensures
        r@.len() == n,
{
    let mut buf = vec![0u8; n];
    rand::Rng::fill(&mut rand::thread_rng(), &mut buf[..]);
    buf
}

/// `rand::Rng::gen_range` on the thread's generator, from zero up to and without `n`; it panics
/// on an empty range.
#[verifier::external_body]
pub(crate) fn random_below(n: i64) -> (r: i64)
    requires
        n > 0,
    ensures
        0 <= r < n,
{
    rand::Rng::gen_range(&mut rand::thread_rng(), 0..n)
}

// ── hashes and encodings ───────────────────────────────────────

/// The SHA-256 hash of bytes.
pub uninterp spec fn sha256(data: Seq<u8>) -> Seq<u8>;

/// `sha2::Sha256::digest`: the 32 bytes of the SHA-256 hash.
#[verifier::external_body]
pub fn sha256_bytes(data: &[u8]) -> (r: [u8; 32])
    ensures
        r@ == sha256(data@),
{
    <sha2::Sha256 as sha2::Digest>::digest(data).into()
}

/// The hexadecimal digit for a value below 16, in lower case.
pub open spec fn hex_digit(n: int) -> char {
    if n < 10 {
        (48 + n) as u32 as char
    } else {
        (87 + n) as u32 as char
    }
}

/// Two hexadecimal digits for each byte, the high one first.
pub open spec fn hex_text(b: Seq<u8>) -> Seq<char> {
    Seq::new(
        2 * b.len(),
        |i: int|
            if i % 2 == 0 {
                hex_digit(b[i / 2] as int / 16)
            } else {
                hex_digit(b[i / 2] as int % 16)
            },
    )
}

/// `hex::encode`: two lower-case hexadecimal digits for each byte.
#[verifier::external_body]
pub(crate) fn hex_encode(data: &[u8]) -> (r: String)
    ensures
        r@ == hex_text(data@),
{
    hex::encode(data)
}

/// The character for six bits in the standard base64 alphabet.
pub open spec fn base64_char(n: int) -> char {
    if n < 26 {
        (65 + n) as u32 as char
    } else if n < 52 {
        (71 + n) as u32 as char
    } else if n < 62 {
        (n - 4) as u32 as char
    } else if n == 62 {
        '+'
    } else {
        '/'
    }
}

/// Base64 in the standard alphabet with padding (RFC 4648, section 4).
pub open spec fn base64_text(b: Seq<u8>) -> Seq<char>
    decreases b.len(),
{
    let b0 = b[0] as int;
    let b1 = b[1] as int;
    let b2 = b[2] as int;
    if b.len() == 0 {
        Seq::empty()
    } else if b.len() == 1 {
        seq![base64_char(b0 / 4), base64_char(b0 % 4 * 16), '=', '=']
    } else if b.len() == 2 {
        seq![base64_char(b0 / 4), base64_char(b0 % 4 * 16 + b1 / 16), base64_char(b1 % 16 * 4), '=']
    } else {
        seq![
            base64_char(b0 / 4),
            base64_char(b0 % 4 * 16 + b1 / 16),
            base64_char(b1 % 16 * 4 + b2 / 64),
            base64_char(b2 % 64),
        ] + base64_text(b.skip(3))
    }
}

/// `base64`'s `STANDARD` engine: base64 in the standard alphabet, padded. (A slice holds at most
/// `isize::MAX` bytes, so that the length of the result is in the range of `usize`.)
#[verifier::external_body]
pub(crate) fn base64_encode(data: &[u8]) -> (r: String)
    ensures
        r@ == base64_text(data@),
{
    base64::Engine::encode(&base64::engine::general_purpose::STANDARD, data)
}

/// `str::parse` into a double-precision number: the number that a text stands for.
pub uninterp spec fn float_parsed(s: Seq<char>) -> Option<FloatV>;

/// `str::parse` into a double-precision number, handed on by its bit pattern
/// (`serde_json::Number` fixes the type that is parsed).
#[verifier::external_body]
fn parse_float(s: &str) -> (r: Option<u64>)
    ensures
        float_parsed(s@) == (match r {
            Some(bits) => Some(float::float_of_bits(bits)),
            None => None,
        }),
{
    s.parse().ok().map(|f| (serde_json::Number::from_f64(f), f.to_bits()).1)
}

// ── identifiers ────────────────────────────────────────────────

pub fn random_hex(bytes: usize) -> (r: String)
    ensures
        exists|b: Seq<u8>| b.len() == bytes && r@ == #[trigger] hex_text(b),
{
    let b = random_bytes(bytes);
    hex_encode(b.as_slice())
}

/// The form of a SHA-256 hash in hexadecimal.
pub open spec fn is_hash(s: Seq<char>) -> bool {
    s.len() == 64 && forall|i: int| 0 <= i < 64 ==> is_lower_hex(#[trigger] s[i])
}

pub fn sha256_hex(data: &[u8]) -> (r: String)
    ensures
        r@ == hex_text(sha256(data@)),
        is_hash(r@),
{
    let d = sha256_bytes(data);
    proof {
        lemma_hex_digits(d@);
    }
    hex_encode(d.as_slice())
}

/// The value of the `traceparent` header for a trace and a span.
pub open spec fn traceparent_text(trace: Seq<char>, span: Seq<char>) -> Seq<char> {
    "00-"@ + trace + "-"@ + span + "-01"@
}

/// A `traceparent` for a fresh trace of 16 random bytes and a fresh span of 8.
pub fn generate_traceparent() -> (r: String)
    ensures
        exists|trace: Seq<u8>, span: Seq<u8>|
            trace.len() == 16 && span.len() == 8 && r@ == traceparent_text(
                #[trigger] hex_text(trace),
                #[trigger] hex_text(span),
            ),
{
    let trace = random_hex(16);
    let span = random_hex(8);
    cat5("00-", trace.as_str(), "-", span.as_str(), "-01")
}

/// The first `n` characters of a UUID without its hyphens.
pub open spec fn short_id_text(uuid: Seq<char>, n: int) -> Seq<char> {
    let c = text::without(uuid, '-');
    if n <= c.len() {
        c.take(n)
    } else {
        c
    }
}

pub fn short_id(uuid: &str, n: usize) -> (r: String)
    ensures
        r@ == short_id_text(uuid@, n as int),
{
    take_chars(remove_char(uuid, '-').as_str(), n)
}

/// The name of a project by its directory: the runs of ASCII letters and digits in the
/// lower-cased path with `-` between them, or `root` where there is none.
pub open spec fn slug_text(p: Seq<char>) -> Seq<char> {
    let parts = text::runs(text::lowercase(p), Class::Slug);
    if parts.len() == 0 {
        "root"@
    } else {
        text::joined(parts, "-"@)
    }
}

/// A slug is its own slug.
pub fn slugify_project_path(p: &str) -> (r: String)
    ensures
        r@ == slug_text(p@),
        is_slug(r@),
        is_slug(p@) ==> r@ == p@,
{
    let lower = to_lowercase(p);
    proof {
        slugs_have_their_form(p@);
        if is_slug(p@) {
            assert forall|i: int| 0 <= i < p@.len() implies text::ascii_lower(#[trigger] p@[i]) == p@[i] && (
            p@[i] as u32) < 128 by {
                assert(Class::Slug.has(p@[i]) || p@[i] == '-');
            }
            assert(lower@ =~= p@);
            lemma_slug_runs(p@);
        }
    }
    let parts = runs_of(lower.as_str(), Class::Slug);
    if parts.len() == 0 {
        "root".to_owned()
    } else {
        join(&parts, "-")
    }
}

/// Random UUIDs, so many.
pub open spec fn uuid_list(uuids: Seq<Seq<char>>, n: nat) -> bool {
    uuids.len() == n && forall|i: int| 0 <= i < n ==> uuid_text(#[trigger] uuids[i])
}

pub(crate) fn random_uuids(n: usize) -> (r: Vec<String>)
    ensures
        r@.len() == n,
        uuid_list(text::texts(r@), n as nat),
{
    let mut r: Vec<String> = Vec::new();
    while r.len() < n
        invariant
            r@.len() <= n,
            forall|k: int| 0 <= k < r@.len() ==> uuid_text((#[trigger] r@[k])@),
        decreases n - r.len(),
    {
        r.push(random_uuid());
    }
    assert(uuid_list(text::texts(r@), n as nat));
    r
}

// ── API keys ───────────────────────────────────────────────────

/// The first key in a text: `user_` and the letters, digits, `_` and `-` behind it, of which
/// there is at least one.
pub open spec fn user_key(s: Seq<char>) -> Option<Seq<char>>
    decreases s.len(),
{
    if s.len() == 0 {
        None
    } else {
        let n = text::run_length(s.skip(5), Class::Key) as int;
        if text::has_prefix(s, "user_"@) && n > 0 {
            Some(s.take(5 + n))
        } else {
            user_key(s.skip(1))
        }
    }
}

fn extract_user_key(s: &str) -> (r: Option<String>)
    ensures
        text::text_opt(r) == user_key(s@),
{
    let cs = chars_of(s);
    let prefix = chars_of("user_");
    let total: usize = cs.len();
    let mut i: usize = 0;
    assert(cs@.skip(0) =~= cs@);
    while i < total
        invariant
            i <= total == cs@.len(),
            cs@ == s@,
            prefix@ == "user_"@,
            user_key(cs@.skip(i as int)) == user_key(cs@),
        decreases total - i,
    {
        proof {
            reveal_strlit("user_");
        }
        let ghost rest = cs@.skip(i as int);
        assert(rest.skip(1) =~= cs@.skip(i + 1));
        if matches_at(&cs, i, &prefix) {
            assert(rest.skip(5) =~= cs@.skip(i + 5));
            let end = run_end(&cs, i + 5, Class::Key);
            if end > i + 5 {
                let r = text_between(&cs, i, end);
                assert(r@ =~= rest.take(end - i));
                return Some(r);
            }
        }
        i = i + 1;
    }
    None
}

/// The API key of a request: from `Authorization: Bearer`, else from `x-api-key`.
pub open spec fn api_key_of(authorization: Option<Seq<char>>, x_api_key: Option<Seq<char>>) -> Option<Seq<char>> {
    let bearer = match authorization {
        Some(a) => match text::after_prefix(a, "Bearer "@) {
            Some(rest) => user_key(rest),
            None => None,
        },
        None => None,
    };
    match bearer {
        Some(k) => Some(k),
        None => match x_api_key {
            Some(x) => user_key(x),
            None => None,
        },
    }
}

/// The arguments are the values of the two headers, where they are there and are text.
pub fn get_api_key(authorization: Option<&str>, x_api_key: Option<&str>) -> (r: Option<String>)
    ensures
        text::text_opt(r) == api_key_of(text::str_opt(authorization), text::str_opt(x_api_key)),
{
    if let Some(a) = authorization {
        if let Some(rest) = strip_prefix(a, "Bearer ") {
            if let Some(k) = extract_user_key(rest.as_str()) {
                return Some(k);
            }
        }
    }
    match x_api_key {
        Some(x) => extract_user_key(x),
        None => None,
    }
}

// ── readings of JSON ───────────────────────────────────────────

/// The value in a text, or an object without members where the text is not JSON.
pub open spec fn parsed_or_empty(s: Seq<char>) -> JsonV {
    match json::json_parsed(s) {
        Some(j) => j,
        None => JsonV::obj(),
    }
}

pub fn try_parse_json(s: &str) -> (r: Json)
    ensures
        r@ == parsed_or_empty(s@),
{
    match parse_json(s) {
        Some(j) => j,
        None => Json::obj(),
    }
}

/// Whether a value counts as true: all but null, `false`, zero and the empty text.
pub open spec fn is_truthy(j: JsonV) -> bool {
    match j {
        JsonV::Null => false,
        JsonV::Bool(b) => b,
        JsonV::Number(n) => !float::float_is_zero(float::float_of_number(n)),
        JsonV::Str(s) => s.len() > 0,
        JsonV::Array(_) => true,
        JsonV::Object(_) => true,
    }
}

pub(crate) fn number_double(n: &Number) -> (r: Double)
    ensures
        r.wf(),
        r@ == float::float_of_number(n@),
{
    match n {
        Number::Pos(n) => Double::from_u64(*n),
        Number::Neg(n) => Double::from_i64(*n),
        Number::Float(f) => Double::from_bits(f.bits()),
    }
}

pub fn truthy(v: &Json) -> (r: bool)
    ensures
        r == is_truthy(v@),
{
    match v {
        Json::Null => false,
        Json::Bool(b) => *b,
        Json::Number(n) => !number_double(n).is_zero(),
        Json::Str(s) => !s.as_str().is_empty(),
        Json::Array(_) => true,
        Json::Object(_) => true,
    }
}

/// The first of the candidates that counts as true, else the default.
pub open spec fn first_truthy_of(candidates: Seq<JsonV>, default: JsonV) -> JsonV
    decreases candidates.len(),
{
    if candidates.len() == 0 {
        default
    } else if is_truthy(candidates[0]) {
        candidates[0]
    } else {
        first_truthy_of(candidates.skip(1), default)
    }
}

pub fn first_truthy(candidates: &[Json], default: Json) -> (r: Json)
    ensures
        r@ == first_truthy_of(json::models(candidates@), default@),
{
    let ghost all = json::models(candidates@);
    let mut i: usize = 0;
    assert(all.skip(0) =~= all);
    while i < candidates.len()
        invariant
            i <= candidates@.len(),
            all == json::models(candidates@),
            first_truthy_of(all.skip(i as int), default@) == first_truthy_of(all, default@),
        decreases candidates.len() - i,
    {
        assert(all.skip(i as int)[0] == candidates@[i as int]@);
        if truthy(&candidates[i]) {
            return candidates[i].clone();
        }
        assert(all.skip(i as int).skip(1) =~= all.skip(i + 1));
        i = i + 1;
    }
    default
}

/// The member where it counts as true.
pub open spec fn truthy_member(j: JsonV, k: Seq<char>) -> Option<JsonV> {
    match j.get(k) {
        Some(v) => if is_truthy(v) {
            Some(v)
        } else {
            None
        },
        None => None,
    }
}

pub(crate) fn get_truthy<'a>(j: &'a Json, k: &str) -> (r: Option<&'a Json>)
    ensures
        json::opt_json(r) == truthy_member(j@, k@),
{
    match j.get(k) {
        Some(v) => if truthy(v) {
            Some(v)
        } else {
            None
        },
        None => None,
    }
}

/// The text of a value: empty where it is absent or null, the text itself, else its JSON form.
pub open spec fn plain_text(v: Option<JsonV>) -> Seq<char> {
    match v {
        None => Seq::empty(),
        Some(JsonV::Null) => Seq::empty(),
        Some(JsonV::Str(s)) => s,
        Some(j) => json::json_text(j),
    }
}

pub fn string_or_empty(v: Option<&Json>) -> (r: String)
    ensures
        r@ == plain_text(json::opt_json(v)),
{
    match v {
        None => String::new(),
        Some(j) => match j {
            Json::Null => String::new(),
            Json::Str(s) => s.clone(),
            _ => json_string(j),
        },
    }
}

/// The number in a value: a number, or a text that reads as one.
pub open spec fn number_in(v: Option<JsonV>) -> Option<FloatV> {
    match v {
        Some(JsonV::Number(n)) => Some(float::float_of_number(n)),
        Some(JsonV::Str(s)) => float_parsed(text::trimmed(s)),
        _ => None,
    }
}

pub(crate) fn num(v: Option<&Json>) -> (r: Option<Double>)
    ensures
        match r {
            Some(d) => d.wf() && number_in(json::opt_json(v)) == Some(d@),
            None => number_in(json::opt_json(v)) is None,
        },
{
    match v {
        Some(j) => match j {
            Json::Number(n) => Some(number_double(n)),
            Json::Str(s) => match parse_float(trim(s.as_str()).as_str()) {
                Some(bits) => Some(Double::from_bits(bits)),
                None => None,
            },
            _ => None,
        },
        None => None,
    }
}

/// The number in a value as an integer: cut off towards zero and kept in the range of `i64`.
pub open spec fn integer_in(v: Option<JsonV>) -> Option<i64> {
    match number_in(v) {
        Some(f) => Some(float::float_to_i64(f)),
        None => None,
    }
}

pub fn nullish_num(v: Option<&Json>) -> (r: Option<i64>)
    ensures
        r == integer_in(json::opt_json(v)),
{
    match num(v) {
        Some(d) => Some(d.to_i64()),
        None => None,
    }
}

pub open spec fn integer_or(v: Option<JsonV>, default: i64) -> i64 {
    match integer_in(v) {
        Some(n) => n,
        None => default,
    }
}

pub fn nullish_i64(v: Option<&Json>, default: i64) -> (r: i64)
    ensures
        r == integer_or(json::opt_json(v), default),
{
    match nullish_num(v) {
        Some(n) => n,
        None => default,
    }
}

/// The text of a content part: of its member `text`, else of its member `content`.
pub open spec fn part_text(c: JsonV) -> Seq<char> {
    match c.get_nonnull("text"@) {
        Some(t) => plain_text(Some(t)),
        None => plain_text(c.get("content"@)),
    }
}

pub fn nullish_text(c: &Json) -> (r: String)
    ensures
        r@ == part_text(c@),
{
    match c.get_nonnull("text") {
        Some(t) => string_or_empty(Some(t)),
        None => string_or_empty(c.get("content")),
    }
}

// ── summaries ──────────────────────────────────────────────────

/// An error text on one line, cut to `limit` characters with a note of how many more there were.
pub open spec fn summary_text(s: Seq<char>, limit: int) -> Seq<char> {
    let flat = text::joined(text::runs(s, Class::Word), " "@);
    if flat.len() > limit {
        flat.take(limit) + "…("@ + text::decimal((flat.len() - limit) as nat) + " more)"@
    } else {
        flat
    }
}

pub fn summarize_upstream_error(text: &str, limit: usize) -> (r: String)
    ensures
        r@ == summary_text(text@, limit as int),
{
    let words = runs_of(text, Class::Word);
    let flat = join(&words, " ");
    let count: usize = chars_of(flat.as_str()).len();
    if count > limit {
        let head = take_chars(flat.as_str(), limit);
        let rest = cat3("…(", decimal_usize(count - limit).as_str(), " more)");
        let r = cat(head.as_str(), rest.as_str());
        assert(r@ =~= summary_text(text@, limit as int));
        r
    } else {
        flat
    }
}

/// The media type that a data URL names, before the first `;` or `,`.
pub open spec fn media_type_of(url: Seq<char>) -> Option<Seq<char>> {
    match text::after_prefix(url, "data:"@) {
        Some(rest) => {
            let n = text::first_of(rest, ";,"@);
            if 0 < n < rest.len() {
                Some(rest.take(n as int))
            } else {
                None
            }
        },
        None => None,
    }
}

pub fn data_url_media_type(url: &str) -> (r: Option<String>)
    ensures
        text::text_opt(r) == media_type_of(url@),
{
    match strip_prefix(url, "data:") {
        Some(rest) => {
            let cs = chars_of(rest.as_str());
            assert(cs@.skip(0) =~= cs@);
            let n = index_of_any(&cs, 0, ";,");
            if 0 < n && n < cs.len() {
                let r = text_between(&cs, 0, n);
                assert(r@ =~= rest@.take(n as int));
                Some(r)
            } else {
                None
            }
        },
        None => None,
    }
}

/// A value as the bytes of its compact JSON text.
pub fn json_bytes(v: &Json) -> (r: Vec<u8>)
    ensures
        r@ == vstd::utf8::encode_utf8(json::json_text(v@)),
{
    let s = json_string(v);
    s.as_str().as_bytes_vec()
}

// ── laws ───────────────────────────────────────────────────────

/// An API key that was found stands in the header, begins with `user_` and goes on with at least
/// one letter, digit, `_` or `-`, and with nothing else.
pub proof fn user_keys_have_their_form(s: Seq<char>)
    ensures
        user_key(s) matches Some(k) ==> {
            &&& text::has_prefix(k, "user_"@)
            &&& k.len() > 5
            &&& forall|i: int| 5 <= i < k.len() ==> Class::Key.has(#[trigger] k[i])
            &&& exists|at: int| 0 <= at <= s.len() && #[trigger] text::stands_at(s, at, k)
        },
    decreases s.len(),
{
    reveal_strlit("user_");
    if s.len() > 0 {
        let n = text::run_length(s.skip(5), Class::Key) as int;
        text::lemma_run(s.skip(5), Class::Key);
        if text::has_prefix(s, "user_"@) && n > 0 {
            let k = s.take(5 + n);
            assert(k.take(5) =~= s.take(5));
            assert forall|i: int| 5 <= i < k.len() implies Class::Key.has(#[trigger] k[i]) by {
                assert(k[i] == s.skip(5)[i - 5]);
            }
            assert(s.skip(0) =~= s);
            assert(s.take(k.len() as int) =~= k);
            assert(text::stands_at(s, 0, k));
        } else {
            user_keys_have_their_form(s.skip(1));
            if let Some(k) = user_key(s.skip(1)) {
                let at = choose|at: int| 0 <= at <= s.skip(1).len() && #[trigger] text::stands_at(s.skip(1), at, k);
                assert(s.skip(1).skip(at) =~= s.skip(at + 1));
                assert(text::stands_at(s, at + 1, k));
            }
        }
    }
}

proof fn lemma_runs(s: Seq<char>, class: Class)
    ensures
        forall|i: int, j: int|
            0 <= i < text::runs(s, class).len() && 0 <= j < text::runs(s, class)[i].len() ==> class.has(
                #[trigger] text::runs(s, class)[i][j],
            ),
        forall|i: int| 0 <= i < text::runs(s, class).len() ==> (#[trigger] text::runs(s, class)[i]).len() > 0,
    decreases s.len(),
{
    if s.len() > 0 {
        text::lemma_run(s, class);
        let n = text::run_length(s, class) as int;
        let all = text::runs(s, class);
        if class.has(s[0]) {
            assert(n > 0);
            if n < s.len() {
                let rest = text::runs(s.skip(n), class);
                lemma_runs(s.skip(n), class);
                assert(all[0] == s.take(n));
                assert forall|i: int| 0 < i < all.len() implies #[trigger] all[i] == rest[i - 1] by {}
                assert forall|i: int, j: int| 0 <= i < all.len() && 0 <= j < all[i].len() implies class.has(
                    #[trigger] all[i][j],
                ) by {
                    if i > 0 {
                        assert(all[i][j] == rest[i - 1][j]);
                    } else {
                        assert(all[0][j] == s[j]);
                    }
                }
            } else {
                assert forall|i: int, j: int| 0 <= i < all.len() && 0 <= j < all[i].len() implies class.has(
                    #[trigger] all[i][j],
                ) by {
                    assert(all[0][j] == s[j]);
                }
            }
        } else {
            lemma_runs(s.skip(1), class);
            assert(all == text::runs(s.skip(1), class));
        }
    } else {
        assert(text::runs(s, class) =~= Seq::<Seq<char>>::empty());
    }
}

/// Whether a text may name a project: letters and digits, with `-` between them only.
pub open spec fn is_slug(s: Seq<char>) -> bool {
    &&& s.len() > 0
    &&& forall|i: int| 0 <= i < s.len() ==> Class::Slug.has(#[trigger] s[i]) || s[i] == '-'
    &&& Class::Slug.has(s[0])
    &&& Class::Slug.has(s.last())
    &&& forall|i: int| 0 <= i && i + 1 < s.len() && s[i] == '-' ==> s[i + 1] != '-' && #[trigger] s[i] == '-'
}

proof fn lemma_joined_slug(parts: Seq<Seq<char>>)
    requires
        parts.len() > 0,
        forall|i: int, j: int|
            0 <= i < parts.len() && 0 <= j < parts[i].len() ==> Class::Slug.has(#[trigger] parts[i][j]),
        forall|i: int| 0 <= i < parts.len() ==> (#[trigger] parts[i]).len() > 0,
    ensures
        is_slug(text::joined(parts, "-"@)),
    decreases parts.len(),
{
    reveal_strlit("-");
    if parts.len() == 1 {
        let s = parts[0];
        assert forall|i: int| 0 <= i < s.len() implies Class::Slug.has(#[trigger] s[i]) by {
            assert(Class::Slug.has(parts[0][i]));
        }
    } else {
        let front = parts.drop_last();
        assert forall|i: int, j: int| 0 <= i < front.len() && 0 <= j < front[i].len() implies Class::Slug.has(
            #[trigger] front[i][j],
        ) by {
            assert(Class::Slug.has(parts[i][j]));
        }
        assert forall|i: int| 0 <= i < front.len() implies (#[trigger] front[i]).len() > 0 by {
            assert(parts[i].len() > 0);
        }
        lemma_joined_slug(front);
        let a = text::joined(front, "-"@);
        let b = parts.last();
        let s = a + "-"@ + b;
        let last = parts.len() - 1;
        assert(b.len() > 0);
        assert forall|j: int| 0 <= j < b.len() implies Class::Slug.has(#[trigger] b[j]) by {
            assert(Class::Slug.has(parts[last][j]));
        }
        assert(s == text::joined(parts, "-"@));
        assert forall|i: int| 0 <= i < s.len() implies Class::Slug.has(#[trigger] s[i]) || s[i] == '-' by {
            if i < a.len() {
                assert(s[i] == a[i]);
            } else if i > a.len() {
                assert(s[i] == b[i - a.len() - 1]);
            }
        }
        assert(s[0] == a[0]);
        assert(s.last() == b.last());
        assert forall|i: int| 0 <= i && i + 1 < s.len() && s[i] == '-' implies s[i + 1] != '-' && #[trigger] s[i]
            == '-' by {
            if i + 1 < a.len() {
                assert(s[i] == a[i] && s[i + 1] == a[i + 1]);
            } else if i < a.len() {
                assert(s[i] == a.last());
            } else {
                assert(s[i + 1] == b[i - a.len()]);
            }
        }
    }
}

/// The name of a project is never empty and holds lower-case ASCII letters and digits, with
/// single hyphens between them.
pub proof fn slugs_have_their_form(p: Seq<char>)
    ensures
        is_slug(slug_text(p)),
{
    let parts = text::runs(text::lowercase(p), Class::Slug);
    lemma_runs(text::lowercase(p), Class::Slug);
    if parts.len() == 0 {
        reveal_strlit("root");
        let s = "root"@;
        assert(s.len() == 4 && s[0] == 'r' && s[1] == 'o' && s[2] == 'o' && s[3] == 't');
    } else {
        lemma_joined_slug(parts);
    }
}

proof fn lemma_without_count(s: Seq<char>, n: int)
    requires
        uuid_text(s),
        0 <= n <= 36,
    ensures
        text::without(s.take(n), '-').len() == n - (if n > 8 {
            1int
        } else {
            0
        }) - (if n > 13 {
            1int
        } else {
            0
        }) - (if n > 18 {
            1int
        } else {
            0
        }) - (if n > 23 {
            1int
        } else {
            0
        }),
        forall|i: int|
            0 <= i < text::without(s.take(n), '-').len() ==> is_lower_hex(#[trigger] text::without(s.take(n), '-')[i]),
    decreases n,
{
    reveal(Seq::filter);
    if n > 0 {
        lemma_without_count(s, n - 1);
        assert(s.take(n).drop_last() =~= s.take(n - 1));
        assert(s.take(n).last() == s[n - 1]);
    }
}

/// An identifier made of a UUID has as many hexadecimal digits as it is asked for, up to all 32.
pub proof fn short_ids_are_hexadecimal(uuid: Seq<char>, n: int)
    requires
        uuid_text(uuid),
        0 <= n <= 32,
    ensures
        short_id_text(uuid, n).len() == n,
        forall|i: int| 0 <= i < n ==> is_lower_hex(#[trigger] short_id_text(uuid, n)[i]),
{
    assert(uuid.take(36) =~= uuid);
    lemma_without_count(uuid, 36);
}

proof fn lemma_hex_digits(b: Seq<u8>)
    ensures
        hex_text(b).len() == 2 * b.len(),
        forall|i: int| 0 <= i < hex_text(b).len() ==> is_lower_hex(#[trigger] hex_text(b)[i]),
{
}

/// A `traceparent` has 55 characters: a version, 32 hexadecimal digits, 16 hexadecimal digits and
/// flags, with `-` between them.
pub proof fn traceparents_have_their_form(trace: Seq<u8>, span: Seq<u8>)
    requires
        trace.len() == 16,
        span.len() == 8,
    ensures
        ({
            let t = traceparent_text(hex_text(trace), hex_text(span));
            &&& t.len() == 55
            &&& t.take(3) == "00-"@
            &&& forall|i: int| 3 <= i < 35 ==> is_lower_hex(#[trigger] t[i])
            &&& t[35] == '-'
            &&& forall|i: int| 36 <= i < 52 ==> is_lower_hex(#[trigger] t[i])
            &&& t.skip(52) == "-01"@
        }),
{
    reveal_strlit("00-");
    reveal_strlit("-");
    reveal_strlit("-01");
    lemma_hex_digits(trace);
    lemma_hex_digits(span);
    let a = hex_text(trace);
    let b = hex_text(span);
    let t = traceparent_text(a, b);
    assert(t.take(3) =~= "00-"@);
    assert(t.skip(52) =~= "-01"@);
    assert forall|i: int| 3 <= i < 35 implies is_lower_hex(#[trigger] t[i]) by {
        assert(t[i] == a[i - 3]);
    }
    assert forall|i: int| 36 <= i < 52 implies is_lower_hex(#[trigger] t[i]) by {
        assert(t[i] == b[i - 36]);
    }
}

/// Texts put together.
pub open spec fn glued(v: Seq<Seq<char>>) -> Seq<char>
    decreases v.len(),
{
    if v.len() == 0 {
        Seq::empty()
    } else {
        v[0] + glued(v.skip(1))
    }
}

/// The characters of a class, in order.
pub open spec fn kept(s: Seq<char>, class: Class) -> Seq<char>
    decreases s.len(),
{
    if s.len() == 0 {
        Seq::empty()
    } else if class.has(s[0]) {
        seq![s[0]] + kept(s.skip(1), class)
    } else {
        kept(s.skip(1), class)
    }
}

proof fn lemma_kept_run(s: Seq<char>, class: Class)
    ensures
        kept(s, class) == s.take(text::run_length(s, class) as int) + kept(
            s.skip(text::run_length(s, class) as int),
            class,
        ),
    decreases s.len(),
{
    text::lemma_run(s, class);
    let n = text::run_length(s, class) as int;
    if s.len() > 0 && class.has(s[0]) {
        lemma_kept_run(s.skip(1), class);
        text::lemma_run(s.skip(1), class);
        assert(s.skip(1).skip(n - 1) =~= s.skip(n));
        assert(seq![s[0]] + s.skip(1).take(n - 1) =~= s.take(n));
        assert(kept(s, class) =~= s.take(n) + kept(s.skip(n), class));
    } else {
        assert(s.skip(0) =~= s);
        assert(s.take(0) + kept(s, class) =~= kept(s, class));
    }
}

proof fn lemma_glued_runs(s: Seq<char>, class: Class)
    ensures
        glued(text::runs(s, class)) == kept(s, class),
    decreases s.len(),
{
    if s.len() > 0 {
        let n = text::run_length(s, class) as int;
        text::lemma_run(s, class);
        if class.has(s[0]) {
            assert(n > 0);
            lemma_kept_run(s, class);
            if n < s.len() {
                lemma_glued_runs(s.skip(n), class);
                assert(text::runs(s, class).skip(1) =~= text::runs(s.skip(n), class));
            } else {
                assert(s.take(n) =~= s);
                assert(kept(s.skip(n), class) =~= Seq::<char>::empty());
                assert(text::runs(s, class).skip(1) =~= Seq::<Seq<char>>::empty());
                assert(glued(Seq::<Seq<char>>::empty()) =~= Seq::<char>::empty());
                assert(glued(text::runs(s, class)) =~= s);
                assert(kept(s, class) =~= s);
            }
        } else {
            lemma_glued_runs(s.skip(1), class);
        }
    } else {
        assert(glued(text::runs(s, class)) =~= kept(s, class));
    }
}

proof fn lemma_glued_last(v: Seq<Seq<char>>)
    requires
        v.len() > 0,
    ensures
        glued(v) == glued(v.drop_last()) + v.last(),
    decreases v.len(),
{
    if v.len() == 1 {
        assert(v.skip(1) =~= Seq::<Seq<char>>::empty());
        assert(v.drop_last() =~= Seq::<Seq<char>>::empty());
        assert(glued(v) =~= glued(v.drop_last()) + v.last());
    } else {
        lemma_glued_last(v.skip(1));
        assert(v.skip(1).drop_last() =~= v.drop_last().skip(1));
        assert(glued(v) =~= glued(v.drop_last()) + v.last());
    }
}

proof fn lemma_without_sum(a: Seq<char>, b: Seq<char>, c: char)
    ensures
        text::without(a + b, c) == text::without(a, c) + text::without(b, c),
    decreases b.len(),
{
    reveal(Seq::filter);
    if b.len() == 0 {
        assert(a + b =~= a);
        assert(text::without(b, c) =~= Seq::<char>::empty());
        assert(text::without(a, c) + text::without(b, c) =~= text::without(a, c));
    } else {
        lemma_without_sum(a, b.drop_last(), c);
        assert((a + b).drop_last() =~= a + b.drop_last());
        assert((a + b).last() == b.last());
        assert(text::without(a + b, c) =~= text::without(a, c) + text::without(b, c));
    }
}

proof fn lemma_without_none(s: Seq<char>, c: char)
    requires
        forall|i: int| 0 <= i < s.len() ==> #[trigger] s[i] != c,
    ensures
        text::without(s, c) == s,
    decreases s.len(),
{
    reveal(Seq::filter);
    if s.len() > 0 {
        lemma_without_none(s.drop_last(), c);
        assert(s[s.len() - 1] != c);
        assert(s =~= s.drop_last().push(s.last()));
    } else {
        assert(text::without(s, c) =~= s);
    }
}

proof fn lemma_joined_without(parts: Seq<Seq<char>>)
    requires
        forall|i: int, j: int|
            0 <= i < parts.len() && 0 <= j < parts[i].len() ==> Class::Slug.has(#[trigger] parts[i][j]),
    ensures
        text::without(text::joined(parts, "-"@), '-') == glued(parts),
    decreases parts.len(),
{
    reveal_strlit("-");
    reveal(Seq::filter);
    if parts.len() == 0 {
        assert(text::without(text::joined(parts, "-"@), '-') =~= glued(parts));
    } else {
        let front = parts.drop_last();
        let last = parts.last();
        let at = parts.len() - 1;
        lemma_glued_last(parts);
        assert forall|i: int, j: int| 0 <= i < front.len() && 0 <= j < front[i].len() implies Class::Slug.has(
            #[trigger] front[i][j],
        ) by {
            assert(Class::Slug.has(parts[i][j]));
        }
        assert forall|j: int| 0 <= j < last.len() implies #[trigger] last[j] != '-' by {
            assert(Class::Slug.has(parts[at][j]));
        }
        lemma_without_none(last, '-');
        if parts.len() == 1 {
            assert(front =~= Seq::<Seq<char>>::empty());
            assert(glued(front) + last =~= last);
        } else {
            lemma_joined_without(front);
            let a = text::joined(front, "-"@);
            lemma_without_sum(a + "-"@, last, '-');
            lemma_without_sum(a, "-"@, '-');
            assert("-"@.drop_last() =~= Seq::<char>::empty());
            assert("-"@.last() == '-');
            assert(text::without(Seq::<char>::empty(), '-') =~= Seq::<char>::empty());
            assert(text::without("-"@, '-') =~= Seq::<char>::empty());
            assert(text::without(a, '-') + Seq::<char>::empty() =~= text::without(a, '-'));
        }
    }
}

/// Besides its hyphens, the name of a project is the ASCII letters and digits of the lower-cased
/// path in order, or `root` where it has none.
pub proof fn slugs_keep_letters_and_digits(p: Seq<char>)
    ensures
        text::without(slug_text(p), '-') == (if kept(text::lowercase(p), Class::Slug).len() > 0 {
            kept(text::lowercase(p), Class::Slug)
        } else {
            "root"@
        }),
{
    let l = text::lowercase(p);
    let parts = text::runs(l, Class::Slug);
    lemma_runs(l, Class::Slug);
    lemma_glued_runs(l, Class::Slug);
    if parts.len() == 0 {
        reveal_strlit("root");
        let s = "root"@;
        assert(s[0] == 'r' && s[1] == 'o' && s[2] == 'o' && s[3] == 't');
        lemma_without_none(s, '-');
        assert(glued(parts) =~= Seq::<char>::empty());
    } else {
        lemma_joined_without(parts);
        assert(parts[0].len() > 0);
        assert(glued(parts).len() > 0);
    }
}

proof fn lemma_joined_first(x: Seq<char>, rest: Seq<Seq<char>>)
    requires
        rest.len() > 0,
    ensures
        text::joined(seq![x] + rest, "-"@) == x + "-"@ + text::joined(rest, "-"@),
    decreases rest.len(),
{
    let all = seq![x] + rest;
    assert(all.drop_last() =~= seq![x] + rest.drop_last());
    assert(all.last() == rest.last());
    if rest.len() == 1 {
        assert(all.drop_last() =~= seq![x]);
        assert(text::joined(seq![x], "-"@) == x);
        assert(text::joined(all, "-"@) == x + "-"@ + rest[0]);
    } else {
        lemma_joined_first(x, rest.drop_last());
        assert(text::joined(all, "-"@) =~= x + "-"@ + text::joined(rest, "-"@));
    }
}

proof fn lemma_slug_runs(s: Seq<char>)
    requires
        is_slug(s),
    ensures
        text::runs(s, Class::Slug).len() > 0,
        text::joined(text::runs(s, Class::Slug), "-"@) == s,
    decreases s.len(),
{
    reveal_strlit("-");
    let n = text::run_length(s, Class::Slug) as int;
    text::lemma_run(s, Class::Slug);
    lemma_run_stops(s, Class::Slug);
    assert(n > 0);
    if n < s.len() {
        assert(s[n] == '-');
        let rest = s.skip(n + 1);
        assert(rest.len() > 0);
        assert(s.skip(n).skip(1) =~= rest);
        assert(s.skip(n)[0] == '-');
        assert(text::runs(s.skip(n), Class::Slug) == text::runs(rest, Class::Slug));
        assert forall|i: int| 0 <= i < rest.len() implies Class::Slug.has(#[trigger] rest[i]) || rest[i] == '-' by {
            assert(rest[i] == s[i + n + 1]);
        }
        assert(rest[0] == s[n + 1]);
        assert(rest.last() == s.last());
        assert forall|i: int| 0 <= i && i + 1 < rest.len() && rest[i] == '-' implies rest[i + 1] != '-'
            && #[trigger] rest[i] == '-' by {
            assert(s[i + n + 1] == '-');
            assert(s[i + n + 2] == rest[i + 1]);
        }
        lemma_slug_runs(rest);
        lemma_joined_first(s.take(n), text::runs(rest, Class::Slug));
        assert(s.take(n) + "-"@ + rest =~= s);
    }
}

proof fn lemma_run_stops(s: Seq<char>, class: Class)
    ensures
        text::run_length(s, class) < s.len() ==> !class.has(s[text::run_length(s, class) as int]),
    decreases s.len(),
{
    if s.len() > 0 && class.has(s[0]) {
        lemma_run_stops(s.skip(1), class);
    }
}

} // verus!
