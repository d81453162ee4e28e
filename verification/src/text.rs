//! Text: a `str` or `String` is read as the sequence of its characters.

use vstd::prelude::*;
use vstd::string::*;

verus! {

/// `String::push` appends one character.
pub assume_specification[ String::push ](s: &mut String, c: char)
    ensures
        final(s)@ == old(s)@.push(c),
;

/// `==` on `str` compares the two texts character by character.
pub assume_specification[ <str as PartialEq>::eq ](a: &str, b: &str) -> (r: bool)
    ensures
        r == (a@ == b@),
;

/// What `str::to_lowercase` makes of a text that is not all ASCII.
pub uninterp spec fn unicode_lowercase(s: Seq<char>) -> Seq<char>;

/// `str::to_lowercase`, the Unicode lowercase mapping. On text that is all ASCII it changes the
/// letters `A` to `Z` alone; on other text its result has a name.
#[verifier::external_body]
pub(crate) fn to_lowercase(s: &str) -> (r: String)
    ensures
        is_ascii_text(s@) ==> r@ == s@.map_values(|c: char| ascii_lower(c)),
        !is_ascii_text(s@) ==> r@ == unicode_lowercase(s@),
{
    s.to_lowercase()
}

/// A text in lower case.
pub open spec fn lowercase(s: Seq<char>) -> Seq<char> {
    if is_ascii_text(s) {
        s.map_values(|c: char| ascii_lower(c))
    } else {
        unicode_lowercase(s)
    }
}

/// What `String::from_utf8_lossy` makes of bytes that are not well-formed UTF-8.
pub uninterp spec fn utf8_mended(bytes: Seq<u8>) -> Seq<char>;

/// `String::from_utf8_lossy`: well-formed UTF-8 is decoded as it stands; in other input each
/// malformed run is replaced, and the result has a name.
#[verifier::external_body]
pub(crate) fn from_utf8_lossy(bytes: &[u8]) -> (r: String)
    ensures
        vstd::utf8::valid_utf8(bytes@) ==> r@ == vstd::utf8::decode_utf8(bytes@),
        !vstd::utf8::valid_utf8(bytes@) ==> r@ == utf8_mended(bytes@),
{
    String::from_utf8_lossy(bytes).into_owned()
}

/// Bytes as a text: well-formed UTF-8 is decoded as it stands.
pub open spec fn utf8_lossy(bytes: Seq<u8>) -> Seq<char> {
    if vstd::utf8::valid_utf8(bytes) {
        vstd::utf8::decode_utf8(bytes)
    } else {
        utf8_mended(bytes)
    }
}

pub open spec fn is_ascii_text(s: Seq<char>) -> bool {
    forall|i: int| 0 <= i < s.len() ==> ((#[trigger] s[i]) as u32) < 128
}

pub open spec fn ascii_lower(c: char) -> char {
    if 'A' <= c <= 'Z' {
        (c as u32 + 32) as u32 as char
    } else {
        c
    }
}

pub open spec fn ascii_upper(c: char) -> char {
    if 'a' <= c <= 'z' {
        (c as u32 - 32) as u32 as char
    } else {
        c
    }
}

/// The texts of a list of strings.
pub open spec fn texts(v: Seq<String>) -> Seq<Seq<char>> {
    v.map_values(|s: String| s@)
}

/// The text of an optional string.
pub open spec fn text_opt(o: Option<String>) -> Option<Seq<char>> {
    match o {
        Some(s) => Some(s@),
        None => None,
    }
}

/// The text of an optional string slice.
pub open spec fn str_opt(o: Option<&str>) -> Option<Seq<char>> {
    match o {
        Some(s) => Some(s@),
        None => None,
    }
}

pub fn same(a: &str, b: &str) -> (r: bool)
    ensures
        r == (a@ == b@),
{
    a.eq(b)
}

pub fn copy_opt(o: &Option<String>) -> (r: Option<String>)
    ensures
        text_opt(r) == text_opt(*o),
{
    match o {
        Some(s) => Some(s.clone()),
        None => None,
    }
}

pub fn push_text(v: &mut Vec<String>, s: String)
    ensures
        final(v)@ == old(v)@.push(s),
        texts(final(v)@) == texts(old(v)@).push(s@),
{
    v.push(s);
    assert(texts(v@) =~= texts(old(v)@).push(s@));
}

/// Appends the second list to the first.
pub fn append_texts(v: &mut Vec<String>, more: Vec<String>)
    ensures
        final(v)@ == old(v)@ + more@,
        texts(final(v)@) == texts(old(v)@) + texts(more@),
{
    let mut more = more;
    let ghost m = more@;
    v.append(&mut more);
    assert(texts(v@) =~= texts(old(v)@) + texts(m));
}

pub fn no_texts() -> (r: Vec<String>)
    ensures
        r@.len() == 0,
        texts(r@) == Seq::<Seq<char>>::empty(),
{
    let r: Vec<String> = Vec::new();
    assert(texts(r@) =~= Seq::<Seq<char>>::empty());
    r
}

pub fn one_text(s: String) -> (r: Vec<String>)
    ensures
        texts(r@) == seq![s@],
{
    let mut r = no_texts();
    push_text(&mut r, s);
    assert(texts(r@) =~= seq![s@]);
    r
}

pub fn chars_of(s: &str) -> (r: Vec<char>)
    ensures
        r@ == s@,
{
    let mut r: Vec<char> = Vec::new();
    for c in it: s.chars()
        invariant
            it.seq() == s@,
            r@ == s@.take(it.index() as int),
    {
        r.push(c);
        assert(s@.take(it.index() + 1) =~= s@.take(it.index() as int).push(c));
    }
    assert(s@.take(s@.len() as int) =~= s@);
    r
}

/// The text made of the characters from `from` up to `to`.
pub fn text_between(cs: &Vec<char>, from: usize, to: usize) -> (r: String)
    requires
        from <= to <= cs@.len(),
    ensures
        r@ == cs@.subrange(from as int, to as int),
{
    let mut r = String::new();
    let mut i: usize = from;
    assert(r@ =~= cs@.subrange(from as int, from as int));
    while i < to
        invariant
            from <= i <= to <= cs@.len(),
            r@ == cs@.subrange(from as int, i as int),
        decreases to - i,
    {
        r.push(cs[i]);
        i = i + 1;
        assert(cs@.subrange(from as int, i as int) =~= cs@.subrange(from as int, i - 1).push(cs@[i - 1]));
    }
    r
}

pub fn cat(a: &str, b: &str) -> (r: String)
    ensures
        r@ == a@ + b@,
{
    let mut r = a.to_owned();
    r.append(b);
    r
}

pub fn cat3(a: &str, b: &str, c: &str) -> (r: String)
    ensures
        r@ == a@ + b@ + c@,
{
    let mut r = cat(a, b);
    r.append(c);
    r
}

pub fn cat4(a: &str, b: &str, c: &str, d: &str) -> (r: String)
    ensures
        r@ == a@ + b@ + c@ + d@,
{
    let mut r = cat3(a, b, c);
    r.append(d);
    r
}

pub fn cat5(a: &str, b: &str, c: &str, d: &str, e: &str) -> (r: String)
    ensures
        r@ == a@ + b@ + c@ + d@ + e@,
{
    let mut r = cat4(a, b, c, d);
    r.append(e);
    r
}

// ── white space ────────────────────────────────────────────────

/// The characters with the Unicode property White_Space.
pub open spec fn is_space(c: char) -> bool {
    let n = c as u32;
    ||| 9 <= n <= 13
    ||| n == 0x20
    ||| n == 0x85
    ||| n == 0xa0
    ||| n == 0x1680
    ||| 0x2000 <= n <= 0x200a
    ||| n == 0x2028
    ||| n == 0x2029
    ||| n == 0x202f
    ||| n == 0x205f
    ||| n == 0x3000
}

pub fn space(c: char) -> (r: bool)
    ensures
        r == is_space(c),
{
    let n: u32 = c as u32;
    (9 <= n && n <= 13) || n == 0x20 || n == 0x85 || n == 0xa0 || n == 0x1680 || (0x2000 <= n && n <= 0x200a)
        || n == 0x2028 || n == 0x2029 || n == 0x202f || n == 0x205f || n == 0x3000
}

pub open spec fn trim_front(s: Seq<char>) -> Seq<char>
    decreases s.len(),
{
    if s.len() > 0 && is_space(s[0]) {
        trim_front(s.skip(1))
    } else {
        s
    }
}

pub open spec fn trim_back(s: Seq<char>) -> Seq<char>
    decreases s.len(),
{
    if s.len() > 0 && is_space(s.last()) {
        trim_back(s.drop_last())
    } else {
        s
    }
}

/// The text without the white space at either end.
pub open spec fn trimmed(s: Seq<char>) -> Seq<char> {
    trim_back(trim_front(s))
}

pub fn trim(s: &str) -> (r: String)
    ensures
        r@ == trimmed(s@),
{
    let cs = chars_of(s);
    let mut from: usize = 0;
    assert(cs@.skip(0) =~= cs@);
    while from < cs.len() && space(cs[from])
        invariant
            from <= cs@.len(),
            trim_front(cs@.skip(from as int)) == trim_front(cs@),
        decreases cs.len() - from,
    {
        assert(cs@.skip(from as int).skip(1) =~= cs@.skip(from + 1));
        from = from + 1;
    }
    let mut to: usize = cs.len();
    let ghost front = trim_front(cs@);
    assert(front == cs@.skip(from as int));
    assert(cs@.subrange(from as int, to as int) =~= front);
    while from < to && space(cs[to - 1])
        invariant
            from <= to <= cs@.len(),
            trim_back(cs@.subrange(from as int, to as int)) == trim_back(front),
        decreases to,
    {
        assert(cs@.subrange(from as int, to as int).drop_last() =~= cs@.subrange(from as int, to - 1));
        to = to - 1;
    }
    text_between(&cs, from, to)
}

// ── numbers in decimal ─────────────────────────────────────────

pub open spec fn digit_char(d: nat) -> char {
    (48 + d) as u32 as char
}

/// The decimal digits of `n`, without leading zeros.
pub open spec fn decimal(n: nat) -> Seq<char>
    decreases n,
{
    if n < 10 {
        seq![digit_char(n)]
    } else {
        decimal(n / 10).push(digit_char(n % 10))
    }
}

/// The decimal form of an integer, with a sign where it is negative.
pub open spec fn decimal_int(n: int) -> Seq<char> {
    if n < 0 {
        seq!['-'] + decimal((-n) as nat)
    } else {
        decimal(n as nat)
    }
}

fn digit(d: u64) -> (c: char)
    requires
        d < 10,
    ensures
        c == digit_char(d as nat),
{
    (48 + d as u8) as char
}

pub fn decimal_u64(n: u64) -> (r: String)
    ensures
        r@ == decimal(n as nat),
    decreases n,
{
    if n < 10 {
        let mut r = String::new();
        r.push(digit(n));
        assert(r@ =~= seq![digit_char(n as nat)]);
        r
    } else {
        let mut r = decimal_u64(n / 10);
        r.push(digit(n % 10));
        r
    }
}

pub fn decimal_usize(n: usize) -> (r: String)
    ensures
        r@ == decimal(n as nat),
{
    decimal_u64(n as u64)
}

pub fn decimal_i64(n: i64) -> (r: String)
    ensures
        r@ == decimal_int(n as int),
{
    if n < 0 {
        let m: u64 = (-(n + 1)) as u64 + 1;
        let mut r = String::new();
        r.push('-');
        assert(r@ =~= seq!['-']);
        let d = decimal_u64(m);
        r.append(d.as_str());
        r
    } else {
        decimal_u64(n as u64)
    }
}

pub open spec fn is_digit_char(c: char) -> bool {
    '0' <= c <= '9'
}

pub open spec fn all_digits(s: Seq<char>) -> bool {
    s.len() > 0 && forall|i: int| 0 <= i < s.len() ==> is_digit_char(#[trigger] s[i])
}

/// The number that decimal digits stand for.
pub open spec fn digits_value(s: Seq<char>) -> nat
    decreases s.len(),
{
    if s.len() == 0 {
        0
    } else {
        digits_value(s.drop_last()) * 10 + (s.last() as u32 - 48) as nat
    }
}

/// The integer that a text stands for: decimal digits behind an optional `+`, or behind a `-`
/// where a sign is allowed.
pub open spec fn integer_value(s: Seq<char>, signed: bool) -> Option<int> {
    if s.len() > 0 && s[0] == '-' && signed {
        if all_digits(s.skip(1)) {
            Some(-(digits_value(s.skip(1)) as int))
        } else {
            None
        }
    } else {
        let d = if s.len() > 0 && s[0] == '+' {
            s.skip(1)
        } else {
            s
        };
        if all_digits(d) {
            Some(digits_value(d) as int)
        } else {
            None
        }
    }
}

proof fn lemma_digits_value_grows(s: Seq<char>, n: int)
    requires
        0 <= n <= s.len(),
        forall|i: int| 0 <= i < s.len() ==> is_digit_char(#[trigger] s[i]),
    ensures
        digits_value(s.take(n)) <= digits_value(s),
    decreases s.len() - n,
{
    if n == s.len() {
        assert(s.take(n) =~= s);
    } else {
        lemma_digits_value_grows(s, n + 1);
        assert(s.take(n + 1).drop_last() =~= s.take(n));
        assert(is_digit_char(s[n]));
    }
}

/// The value of the digits from `from` on, where it is at most `max`.
fn digits_upto(cs: &Vec<char>, from: usize, max: u64) -> (r: Option<u64>)
    requires
        from <= cs@.len(),
        max <= 0x8000_0000_0000_0000,
    ensures
        match r {
            Some(v) => all_digits(cs@.skip(from as int)) && v == digits_value(cs@.skip(from as int)) && v <= max,
            None => !all_digits(cs@.skip(from as int)) || digits_value(cs@.skip(from as int)) > max,
        },
{
    let ghost d = cs@.skip(from as int);
    if from == cs.len() {
        return None;
    }
    let mut i: usize = from;
    while i < cs.len()
        invariant
            from <= i <= cs@.len(),
            d == cs@.skip(from as int),
            forall|k: int| 0 <= k < i - from ==> is_digit_char(#[trigger] d[k]),
        decreases cs.len() - i,
    {
        let c = cs[i];
        if !('0' <= c && c <= '9') {
            assert(!is_digit_char(d[i - from]));
            return None;
        }
        i = i + 1;
    }
    let mut v: u64 = 0;
    let mut i: usize = from;
    assert(d.take(0) =~= Seq::<char>::empty());
    while i < cs.len()
        invariant
            from <= i <= cs@.len(),
            max <= 0x8000_0000_0000_0000,
            d == cs@.skip(from as int),
            all_digits(d),
            v == digits_value(d.take(i - from)),
            v <= max,
        decreases cs.len() - i,
    {
        let c = cs[i];
        assert(is_digit_char(d[i - from]));
        assert(d.take(i - from + 1).drop_last() =~= d.take(i - from));
        let n: u128 = v as u128 * 10 + (c as u32 - 48) as u128;
        if n > max as u128 {
            proof {
                lemma_digits_value_grows(d, i - from + 1);
            }
            return None;
        }
        v = n as u64;
        i = i + 1;
    }
    assert(d.take(d.len() as int) =~= d);
    Some(v)
}

/// Reads an integer of the range of `i64`, as `str::parse` does.
pub fn parse_i64(s: &str) -> (r: Option<i64>)
    ensures
        match r {
            Some(v) => integer_value(s@, true) == Some(v as int),
            None => match integer_value(s@, true) {
                Some(v) => v < i64::MIN || v > i64::MAX,
                None => true,
            },
        },
{
    let cs = chars_of(s);
    if cs.len() > 0 && cs[0] == '-' {
        match digits_upto(&cs, 1, 0x8000_0000_0000_0000) {
            Some(v) => if v == 0x8000_0000_0000_0000 {
                Some(i64::MIN)
            } else {
                Some(-(v as i64))
            },
            None => None,
        }
    } else {
        let from: usize = if cs.len() > 0 && cs[0] == '+' {
            1
        } else {
            0
        };
        assert(cs@.skip(0) =~= cs@);
        match digits_upto(&cs, from, 0x7fff_ffff_ffff_ffff) {
            Some(v) => Some(v as i64),
            None => None,
        }
    }
}

/// The integer that a text begins with: the decimal digits at its start, behind an optional sign.
/// What follows them does not matter.
pub open spec fn leading_integer(s: Seq<char>) -> Option<int> {
    let signed = s.len() > 0 && (s[0] == '+' || s[0] == '-');
    let d = if signed {
        s.skip(1)
    } else {
        s
    };
    let n = run_length(d, Class::Digit) as int;
    if n == 0 {
        None
    } else if signed && s[0] == '-' {
        Some(-(digits_value(d.take(n)) as int))
    } else {
        Some(digits_value(d.take(n)) as int)
    }
}

/// Reads the integer that a text begins with, where it is not negative and of the range of `i64`.
pub fn parse_leading(s: &str) -> (r: Option<u64>)
    ensures
        match r {
            Some(v) => leading_integer(s@) == Some(v as int) && v <= i64::MAX,
            None => match leading_integer(s@) {
                Some(v) => v <= 0 || v > i64::MAX,
                None => true,
            },
        },
{
    let cs = chars_of(s);
    assert(cs@.skip(0) =~= cs@);
    if cs.len() > 0 && cs[0] == '-' {
        return None;
    }
    let from: usize = if cs.len() > 0 && cs[0] == '+' {
        1
    } else {
        0
    };
    let end = run_end(&cs, from, Class::Digit);
    let ghost d = cs@.skip(from as int);
    proof {
        lemma_run(d, Class::Digit);
    }
    let digits = chars_of(text_between(&cs, from, end).as_str());
    assert(digits@ =~= d.take(end - from));
    assert(digits@.skip(0) =~= digits@);
    assert forall|i: int| 0 <= i < digits@.len() implies is_digit_char(#[trigger] digits@[i]) by {
        assert(Class::Digit.has(d[i]));
    }
    digits_upto(&digits, 0, 0x7fff_ffff_ffff_ffff)
}

/// Reads an integer of the range of `u16`, as `str::parse` does.
pub fn parse_u16(s: &str) -> (r: Option<u16>)
    ensures
        match r {
            Some(v) => integer_value(s@, false) == Some(v as int),
            None => match integer_value(s@, false) {
                Some(v) => v > u16::MAX,
                None => true,
            },
        },
{
    let cs = chars_of(s);
    let from: usize = if cs.len() > 0 && cs[0] == '+' {
        1
    } else {
        0
    };
    assert(cs@.skip(0) =~= cs@);
    match digits_upto(&cs, from, 0xffff) {
        Some(v) => Some(v as u16),
        None => None,
    }
}

// ── parts of a text ────────────────────────────────────────────

pub open spec fn has_prefix(s: Seq<char>, p: Seq<char>) -> bool {
    p.len() <= s.len() && s.take(p.len() as int) == p
}

/// Whether the text `p` stands in `s` from the place `at` on.
pub open spec fn stands_at(s: Seq<char>, at: int, p: Seq<char>) -> bool {
    has_prefix(s.skip(at), p)
}

pub(crate) fn matches_at(cs: &Vec<char>, at: usize, p: &Vec<char>) -> (r: bool)
    requires
        at <= cs@.len(),
    ensures
        r == stands_at(cs@, at as int, p@),
{
    let total: usize = cs.len();
    if total - at < p.len() {
        return false;
    }
    let ghost s = cs@.skip(at as int);
    let mut i: usize = 0;
    while i < p.len()
        invariant
            i <= p@.len(),
            at + p@.len() <= cs@.len() == total,
            s == cs@.skip(at as int),
            forall|k: int| 0 <= k < i ==> s[k] == p@[k],
        decreases p.len() - i,
    {
        if cs[at + i] != p[i] {
            assert(s.take(p@.len() as int)[i as int] != p@[i as int]);
            return false;
        }
        i = i + 1;
    }
    assert(s.take(p@.len() as int) =~= p@);
    true
}

pub fn starts_with(s: &str, p: &str) -> (r: bool)
    ensures
        r == has_prefix(s@, p@),
{
    let cs = chars_of(s);
    let ps = chars_of(p);
    assert(cs@.skip(0) =~= cs@);
    matches_at(&cs, 0, &ps)
}

/// What follows the prefix, where the text has it.
pub open spec fn after_prefix(s: Seq<char>, p: Seq<char>) -> Option<Seq<char>> {
    if has_prefix(s, p) {
        Some(s.skip(p.len() as int))
    } else {
        None
    }
}

pub fn strip_prefix(s: &str, p: &str) -> (r: Option<String>)
    ensures
        text_opt(r) == after_prefix(s@, p@),
{
    let cs = chars_of(s);
    let ps = chars_of(p);
    assert(cs@.skip(0) =~= cs@);
    if matches_at(&cs, 0, &ps) {
        let r = text_between(&cs, ps.len(), cs.len());
        assert(r@ =~= cs@.skip(ps@.len() as int));
        Some(r)
    } else {
        None
    }
}

/// Whether `p` stands anywhere in `s`.
pub open spec fn holds_text(s: Seq<char>, p: Seq<char>) -> bool {
    exists|i: int| 0 <= i <= s.len() && #[trigger] stands_at(s, i, p)
}

pub fn contains_text(s: &str, p: &str) -> (r: bool)
    ensures
        r == holds_text(s@, p@),
{
    let cs = chars_of(s);
    let ps = chars_of(p);
    let mut i: usize = 0;
    loop
        invariant
            i <= cs@.len(),
            cs@ == s@,
            ps@ == p@,
            forall|k: int| 0 <= k < i ==> !#[trigger] stands_at(s@, k, p@),
        decreases cs.len() - i,
    {
        if matches_at(&cs, i, &ps) {
            return true;
        }
        if i == cs.len() {
            return false;
        }
        i = i + 1;
    }
}

/// The first place where `p` stands in `s`.
pub open spec fn find(s: Seq<char>, p: Seq<char>) -> Option<int>
    decreases s.len(),
{
    if has_prefix(s, p) {
        Some(0)
    } else if s.len() == 0 {
        None
    } else {
        match find(s.skip(1), p) {
            Some(i) => Some(i + 1),
            None => None,
        }
    }
}

pub(crate) fn find_at(cs: &Vec<char>, p: &str) -> (r: Option<usize>)
    ensures
        match r {
            Some(i) => i + p@.len() <= cs@.len() && find(cs@, p@) == Some(i as int),
            None => find(cs@, p@) is None,
        },
{
    let ps = chars_of(p);
    let mut i: usize = 0;
    assert(cs@.skip(0) =~= cs@);
    loop
        invariant
            i <= cs@.len(),
            ps@ == p@,
            find(cs@, p@) == (match find(cs@.skip(i as int), p@) {
                Some(k) => Some(k + i),
                None => None,
            }),
        decreases cs.len() - i,
    {
        if matches_at(cs, i, &ps) {
            return Some(i);
        }
        if i == cs.len() {
            return None;
        }
        assert(cs@.skip(i as int).skip(1) =~= cs@.skip(i + 1));
        i = i + 1;
    }
}

/// The place of the first character that is one of `set`; the length where there is none.
pub open spec fn first_of(s: Seq<char>, set: Seq<char>) -> nat
    decreases s.len(),
{
    if s.len() == 0 || set.contains(s[0]) {
        0
    } else {
        1 + first_of(s.skip(1), set)
    }
}

fn in_set(c: char, set: &Vec<char>) -> (r: bool)
    ensures
        r == set@.contains(c),
{
    let mut i: usize = 0;
    while i < set.len()
        invariant
            i <= set@.len(),
            forall|k: int| 0 <= k < i ==> set@[k] != c,
        decreases set.len() - i,
    {
        if set[i] == c {
            assert(set@[i as int] == c);
            return true;
        }
        i = i + 1;
    }
    false
}

pub(crate) fn index_of_any(cs: &Vec<char>, from: usize, set: &str) -> (r: usize)
    requires
        from <= cs@.len(),
    ensures
        from <= r <= cs@.len(),
        r - from == first_of(cs@.skip(from as int), set@),
{
    let set = chars_of(set);
    let mut i: usize = from;
    while i < cs.len() && !in_set(cs[i], &set)
        invariant
            from <= i <= cs@.len(),
            first_of(cs@.skip(from as int), set@) == (i - from) + first_of(cs@.skip(i as int), set@),
        decreases cs.len() - i,
    {
        assert(cs@.skip(i as int).skip(1) =~= cs@.skip(i + 1));
        i = i + 1;
    }
    i
}

/// The place of the last `c`.
pub open spec fn last_of(s: Seq<char>, c: char) -> Option<int>
    decreases s.len(),
{
    if s.len() == 0 {
        None
    } else if s.last() == c {
        Some(s.len() - 1)
    } else {
        last_of(s.drop_last(), c)
    }
}

pub(crate) fn last_index(cs: &Vec<char>, c: char) -> (r: Option<usize>)
    ensures
        match r {
            Some(i) => i < cs@.len() && last_of(cs@, c) == Some(i as int),
            None => last_of(cs@, c) is None,
        },
{
    let mut n: usize = cs.len();
    assert(cs@.take(n as int) =~= cs@);
    while n > 0
        invariant
            n <= cs@.len(),
            last_of(cs@.take(n as int), c) == last_of(cs@, c),
        decreases n,
    {
        if cs[n - 1] == c {
            return Some(n - 1);
        }
        assert(cs@.take(n as int).drop_last() =~= cs@.take(n - 1));
        n = n - 1;
    }
    None
}

/// Texts put together with a separator between each two.
pub open spec fn joined(v: Seq<Seq<char>>, sep: Seq<char>) -> Seq<char>
    decreases v.len(),
{
    if v.len() == 0 {
        Seq::empty()
    } else if v.len() == 1 {
        v[0]
    } else {
        joined(v.drop_last(), sep) + sep + v.last()
    }
}

pub fn join(v: &Vec<String>, sep: &str) -> (r: String)
    ensures
        r@ == joined(texts(v@), sep@),
{
    let mut r = String::new();
    let mut i: usize = 0;
    let ghost all = texts(v@);
    assert(all.take(0) =~= Seq::<Seq<char>>::empty());
    while i < v.len()
        invariant
            i <= v@.len(),
            all == texts(v@),
            r@ == joined(all.take(i as int), sep@),
        decreases v.len() - i,
    {
        assert(all.take(i + 1).drop_last() =~= all.take(i as int));
        assert(all.take(i + 1).last() == v@[i as int]@);
        if i > 0 {
            r.append(sep);
        }
        r.append(v[i].as_str());
        assert(i == 0 ==> r@ =~= v@[0]@);
        i = i + 1;
    }
    assert(all.take(i as int) =~= all);
    r
}

/// A class of characters, of which the runs in a text are taken.
#[derive(Clone, Copy, PartialEq, Eq, Structural)]
pub enum Class {
    /// Anything but white space.
    Word,
    /// `a` to `z` and `0` to `9`.
    Slug,
    /// ASCII letters and digits, `_` and `-`.
    Key,
    /// `0` to `9`.
    Digit,
}

impl Class {
    pub open spec fn has(self, c: char) -> bool {
        match self {
            Class::Word => !is_space(c),
            Class::Slug => 'a' <= c <= 'z' || '0' <= c <= '9',
            Class::Key => 'a' <= c <= 'z' || 'A' <= c <= 'Z' || '0' <= c <= '9' || c == '_' || c == '-',
            Class::Digit => is_digit_char(c),
        }
    }

    fn holds(self, c: char) -> (r: bool)
        ensures
            r == self.has(c),
    {
        match self {
            Class::Word => !space(c),
            Class::Slug => ('a' <= c && c <= 'z') || ('0' <= c && c <= '9'),
            Class::Key => ('a' <= c && c <= 'z') || ('A' <= c && c <= 'Z') || ('0' <= c && c <= '9') || c == '_'
                || c == '-',
            Class::Digit => '0' <= c && c <= '9',
        }
    }
}

/// How many characters of the class the text begins with.
pub open spec fn run_length(s: Seq<char>, class: Class) -> nat
    decreases s.len(),
{
    if s.len() > 0 && class.has(s[0]) {
        1 + run_length(s.skip(1), class)
    } else {
        0
    }
}

pub proof fn lemma_run(s: Seq<char>, class: Class)
    ensures
        run_length(s, class) <= s.len(),
        forall|i: int| 0 <= i < run_length(s, class) ==> class.has(#[trigger] s[i]),
    decreases s.len(),
{
    if s.len() > 0 && class.has(s[0]) {
        lemma_run(s.skip(1), class);
        assert forall|i: int| 0 <= i < run_length(s, class) implies class.has(#[trigger] s[i]) by {
            if i > 0 {
                assert(s.skip(1)[i - 1] == s[i]);
            }
        }
    }
}

pub(crate) fn run_end(cs: &Vec<char>, from: usize, class: Class) -> (r: usize)
    requires
        from <= cs@.len(),
    ensures
        from <= r <= cs@.len(),
        r - from == run_length(cs@.skip(from as int), class),
{
    let mut i: usize = from;
    while i < cs.len() && class.holds(cs[i])
        invariant
            from <= i <= cs@.len(),
            run_length(cs@.skip(from as int), class) == (i - from) + run_length(cs@.skip(i as int), class),
        decreases cs.len() - i,
    {
        assert(cs@.skip(i as int).skip(1) =~= cs@.skip(i + 1));
        i = i + 1;
    }
    i
}

/// The longest runs of characters of the class, in order.
pub open spec fn runs(s: Seq<char>, class: Class) -> Seq<Seq<char>>
    decreases s.len(),
{
    if s.len() == 0 {
        Seq::empty()
    } else if class.has(s[0]) {
        let n = run_length(s, class) as int;
        if n < s.len() {
            seq![s.take(n)] + runs(s.skip(n), class)
        } else {
            seq![s]
        }
    } else {
        runs(s.skip(1), class)
    }
}

pub fn runs_of(text: &str, class: Class) -> (r: Vec<String>)
    ensures
        texts(r@) == runs(text@, class),
{
    let cs = chars_of(text);
    let mut out = no_texts();
    let mut i: usize = 0;
    assert(cs@.skip(0) =~= cs@);
    assert(texts(out@) + runs(cs@, class) =~= runs(cs@, class));
    while i < cs.len()
        invariant
            i <= cs@.len(),
            cs@ == text@,
            texts(out@) + runs(cs@.skip(i as int), class) == runs(cs@, class),
        decreases cs.len() - i,
    {
        let ghost rest = cs@.skip(i as int);
        if class.holds(cs[i]) {
            let end = run_end(&cs, i, class);
            proof {
                lemma_run(rest, class);
                assert(rest.skip(1) =~= cs@.skip(i + 1));
                assert(rest.take(end - i) =~= cs@.subrange(i as int, end as int));
                assert(rest.skip(end - i) =~= cs@.skip(end as int));
                if end == cs@.len() {
                    assert(rest.take(end - i) =~= rest);
                    assert(cs@.skip(end as int) =~= Seq::<char>::empty());
                    assert(runs(cs@.skip(end as int), class) =~= Seq::<Seq<char>>::empty());
                }
                assert(runs(rest, class) =~= seq![rest.take(end - i)] + runs(cs@.skip(end as int), class));
            }
            let ghost before = texts(out@);
            push_text(&mut out, text_between(&cs, i, end));
            assert(texts(out@) + runs(cs@.skip(end as int), class) =~= before + runs(rest, class));
            i = end;
        } else {
            assert(rest.skip(1) =~= cs@.skip(i + 1));
            i = i + 1;
        }
    }
    assert(cs@.skip(i as int) =~= Seq::<char>::empty());
    assert(texts(out@) + Seq::<Seq<char>>::empty() =~= texts(out@));
    out
}

/// The first `n` characters.
pub fn take_chars(s: &str, n: usize) -> (r: String)
    ensures
        r@ == (if n <= s@.len() {
            s@.take(n as int)
        } else {
            s@
        }),
{
    let cs = chars_of(s);
    if n <= cs.len() {
        let r = text_between(&cs, 0, n);
        assert(r@ =~= s@.take(n as int));
        r
    } else {
        s.to_owned()
    }
}

/// The text without a character.
pub open spec fn without(s: Seq<char>, c: char) -> Seq<char> {
    s.filter(|x: char| x != c)
}

pub fn remove_char(s: &str, c: char) -> (r: String)
    ensures
        r@ == without(s@, c),
{
    let cs = chars_of(s);
    let mut r = String::new();
    let mut i: usize = 0;
    assert(cs@.take(0) =~= Seq::<char>::empty());
    proof {
        reveal(Seq::filter);
    }
    while i < cs.len()
        invariant
            i <= cs@.len(),
            cs@ == s@,
            r@ == without(cs@.take(i as int), c),
        decreases cs.len() - i,
    {
        proof {
            reveal(Seq::filter);
            assert(cs@.take(i + 1).drop_last() =~= cs@.take(i as int));
        }
        if cs[i] != c {
            r.push(cs[i]);
        }
        i = i + 1;
    }
    assert(cs@.take(i as int) =~= cs@);
    r
}

pub fn lower(s: &str) -> (r: String)
    ensures
        r@ == s@.map_values(|c: char| ascii_lower(c)),
{
    let cs = chars_of(s);
    let mut r = String::new();
    let mut i: usize = 0;
    let ghost all = s@.map_values(|c: char| ascii_lower(c));
    assert(r@ =~= all.take(0));
    while i < cs.len()
        invariant
            i <= cs@.len(),
            cs@ == s@,
            all == s@.map_values(|c: char| ascii_lower(c)),
            r@ == all.take(i as int),
        decreases cs.len() - i,
    {
        let c = cs[i];
        let d: char = if 'A' <= c && c <= 'Z' {
            (c as u8 + 32) as char
        } else {
            c
        };
        r.push(d);
        i = i + 1;
        assert(all.take(i as int) =~= all.take(i - 1).push(d));
    }
    assert(all.take(i as int) =~= all);
    r
}

pub fn upper(s: &str) -> (r: String)
    ensures
        r@ == s@.map_values(|c: char| ascii_upper(c)),
{
    let cs = chars_of(s);
    let mut r = String::new();
    let mut i: usize = 0;
    let ghost all = s@.map_values(|c: char| ascii_upper(c));
    assert(r@ =~= all.take(0));
    while i < cs.len()
        invariant
            i <= cs@.len(),
            cs@ == s@,
            all == s@.map_values(|c: char| ascii_upper(c)),
            r@ == all.take(i as int),
        decreases cs.len() - i,
    {
        let c = cs[i];
        let d: char = if 'a' <= c && c <= 'z' {
            (c as u8 - 32) as char
        } else {
            c
        };
        r.push(d);
        i = i + 1;
        assert(all.take(i as int) =~= all.take(i - 1).push(d));
    }
    assert(all.take(i as int) =~= all);
    r
}

/// A number that is written in decimal is read back.
pub proof fn decimals_are_read_back(n: nat)
    ensures
        all_digits(decimal(n)),
        digits_value(decimal(n)) == n,
        integer_value(decimal(n), false) == Some(n as int),
    decreases n,
{
    let s = decimal(n);
    if n < 10 {
        assert(s.drop_last() =~= Seq::<char>::empty());
        assert(digits_value(s.drop_last()) == 0);
        assert(s.last() == digit_char(n));
    } else {
        decimals_are_read_back(n / 10);
        assert(s.drop_last() =~= decimal(n / 10));
        assert(s.last() == digit_char(n % 10));
        assert forall|i: int| 0 <= i < s.len() implies is_digit_char(#[trigger] s[i]) by {
            if i < s.len() - 1 {
                assert(s[i] == decimal(n / 10)[i]);
            }
        }
    }
    assert(is_digit_char(s[0]));
}

} // verus!
