//! What is encoded can be read back.

use vstd::prelude::*;
use crate::errors;
use crate::fingerprint;
use crate::laws::members;
use crate::text;
use crate::util;

verus! {

/// The value of a hexadecimal digit.
pub open spec fn digit_value(c: char) -> int {
    if c <= '9' {
        c as int - '0' as int
    } else {
        c as int - 'a' as int + 10
    }
}

/// Two hexadecimal digits stand for each byte, in the order of the bytes.
pub proof fn hexadecimals_are_read_back(b: Seq<u8>, i: int)
    requires
        0 <= i < b.len(),
    ensures
        util::hex_text(b).len() == 2 * b.len(),
        digit_value(util::hex_text(b)[2 * i]) * 16 + digit_value(util::hex_text(b)[2 * i + 1]) == b[i],
{
    let h = util::hex_text(b);
    let n = b[i] as int;
    assert((2 * i) % 2 == 0 && (2 * i) / 2 == i && (2 * i + 1) % 2 == 1 && (2 * i + 1) / 2 == i);
    assert(h[2 * i] == util::hex_digit(n / 16));
    assert(h[2 * i + 1] == util::hex_digit(n % 16));
    assert(0 <= n / 16 < 16 && 0 <= n % 16 < 16);
    lemma_digit(n / 16);
    lemma_digit(n % 16);
}

proof fn lemma_digit(n: int)
    requires
        0 <= n < 16,
    ensures
        digit_value(util::hex_digit(n)) == n,
{
}

/// The six bits that a character of base64 stands for.
pub open spec fn sextet(c: char) -> int {
    if 'A' <= c <= 'Z' {
        c as int - 'A' as int
    } else if 'a' <= c <= 'z' {
        c as int - 'a' as int + 26
    } else if '0' <= c <= '9' {
        c as int - '0' as int + 52
    } else if c == '+' {
        62
    } else {
        63
    }
}

proof fn lemma_sextet(n: int)
    requires
        0 <= n < 64,
    ensures
        sextet(util::base64_char(n)) == n,
{
}

/// Four characters of base64 stand for three bytes; fewer bytes at the end are filled up with `=`.
pub proof fn base64_is_read_back(b: Seq<u8>)
    requires
        b.len() > 0,
    ensures
        ({
            let s = util::base64_text(b);
            let n = sextet(s[0]) * 0x40000 + sextet(s[1]) * 0x1000;
            &&& s.len() >= 4
            &&& b.len() == 1 ==> s.len() == 4 && s[2] == '=' && s[3] == '=' && n == b[0] * 0x10000
            &&& b.len() == 2 ==> s.len() == 4 && s[3] == '=' && n + sextet(s[2]) * 0x40 == b[0] * 0x10000 + b[1] * 0x100
            &&& b.len() >= 3 ==> n + sextet(s[2]) * 0x40 + sextet(s[3]) == b[0] * 0x10000 + b[1] * 0x100 + b[2]
                && s.skip(4) == util::base64_text(b.skip(3))
        }),
{
    let b0 = b[0] as int;
    lemma_sextet(b0 / 4);
    lemma_sextet(b0 % 4 * 16);
    let s = util::base64_text(b);
    if b.len() >= 2 {
        let b1 = b[1] as int;
        lemma_sextet(b0 % 4 * 16 + b1 / 16);
        lemma_sextet(b1 % 16 * 4);
        if b.len() >= 3 {
            let b2 = b[2] as int;
            lemma_sextet(b1 % 16 * 4 + b2 / 64);
            lemma_sextet(b2 % 64);
            assert(s.skip(4) =~= util::base64_text(b.skip(3)));
        }
    }
}

/// A thinking text is signed with its own hash.
pub proof fn signatures_are_of_their_text(t: Seq<char>)
    requires
        t.len() > 0,
    ensures
        errors::signature_of(t) == util::base64_text(
            seq![0x12u8, 32u8] + util::sha256(vstd::utf8::encode_utf8(t)),
        ),
{
}

proof fn lemma_kept(s: Seq<char>, c: char)
    requires
        forall|i: int| 0 <= i < s.len() ==> #[trigger] s[i] != c,
    ensures
        text::without(s, c) == s,
    decreases s.len(),
{
    reveal(Seq::filter);
    if s.len() > 0 {
        lemma_kept(s.drop_last(), c);
        assert(text::without(s, c) =~= s);
    }
}

proof fn lemma_without_sum(a: Seq<char>, b: Seq<char>, c: char)
    ensures
        text::without(a + b, c) == text::without(a, c) + text::without(b, c),
{
    Seq::filter_distributes_over_add(a, b, |x: char| x != c);
}

proof fn lemma_dash()
    ensures
        text::without("-"@, '-') == Seq::<char>::empty(),
{
    reveal_strlit("-");
    reveal(Seq::filter);
    assert("-"@.drop_last() =~= Seq::<char>::empty());
    reveal_with_fuel(Seq::filter, 3);
}

/// A GUID is its digits with hyphens between them.
pub proof fn guids_are_their_digits(h: Seq<char>)
    requires
        h.len() == 32,
        forall|i: int| 0 <= i < 32 ==> #[trigger] h[i] != '-',
    ensures
        text::without(fingerprint::guid_form(h), '-') == h,
        fingerprint::guid_form(h).len() == 36,
{
    reveal_strlit("-");
    let a = h.subrange(0, 8);
    let b = h.subrange(8, 12);
    let c = h.subrange(12, 16);
    let d = h.subrange(16, 20);
    let e = h.subrange(20, 32);
    lemma_kept(a, '-');
    lemma_kept(b, '-');
    lemma_kept(c, '-');
    lemma_kept(d, '-');
    lemma_kept(e, '-');
    lemma_dash();
    let m = "-"@;
    lemma_without_sum(a, m, '-');
    lemma_without_sum(a + m, b, '-');
    lemma_without_sum(a + m + b, m, '-');
    lemma_without_sum(a + m + b + m, c, '-');
    lemma_without_sum(a + m + b + m + c, m, '-');
    lemma_without_sum(a + m + b + m + c + m, d, '-');
    lemma_without_sum(a + m + b + m + c + m + d, m, '-');
    lemma_without_sum(a + m + b + m + c + m + d + m, e, '-');
    assert(text::without(fingerprint::guid_form(h), '-') =~= h);
}

proof fn lemma_colon()
    ensures
        text::without(":"@, ':') == Seq::<char>::empty(),
{
    reveal_strlit(":");
    reveal(Seq::filter);
    assert(":"@.drop_last() =~= Seq::<char>::empty());
    reveal_with_fuel(Seq::filter, 3);
}

proof fn lemma_colons(v: Seq<Seq<char>>)
    requires
        forall|i: int, j: int| 0 <= i < v.len() && 0 <= j < v[i].len() ==> #[trigger] v[i][j] != ':',
    ensures
        text::without(text::joined(v, ":"@), ':') == members::run_on(v),
    decreases v.len(),
{
    reveal_with_fuel(members::run_on, 2);
    if v.len() == 0 {
        reveal(Seq::filter);
        assert(text::without(Seq::<char>::empty(), ':') =~= Seq::<char>::empty());
    } else if v.len() == 1 {
        lemma_kept(v[0], ':');
        assert(members::run_on(v) =~= v[0]);
    } else {
        let w = v.drop_last();
        assert forall|i: int, j: int| 0 <= i < w.len() && 0 <= j < w[i].len() implies #[trigger] w[i][j] != ':' by {
            assert(w[i] == v[i]);
        }
        lemma_colons(w);
        lemma_kept(v[v.len() - 1], ':');
        lemma_colon();
        let a = text::joined(w, ":"@);
        lemma_without_sum(a, ":"@, ':');
        lemma_without_sum(a + ":"@, v.last(), ':');
        assert(text::without(text::joined(v, ":"@), ':') =~= members::run_on(v));
    }
}

spec fn single_digits(d: Seq<u8>, n: nat) -> Seq<Seq<char>> {
    Seq::new(n, |i: int| util::hex_text(d.subrange(i, i + 1)))
}

proof fn lemma_digits_run_on(d: Seq<u8>, n: nat)
    requires
        n <= d.len(),
    ensures
        members::run_on(single_digits(d, n)) == util::hex_text(d.take(n as int)),
    decreases n,
{
    let v = single_digits(d, n);
    if n == 0 {
        assert(util::hex_text(d.take(0)) =~= Seq::<char>::empty());
    } else {
        let m = (n - 1) as nat;
        lemma_digits_run_on(d, m);
        assert(v.drop_last() =~= single_digits(d, m));
        assert(v.last() == util::hex_text(d.subrange(m as int, n as int)));
        let a = util::hex_text(d.take(m as int));
        let b = util::hex_text(d.subrange(m as int, n as int));
        let c = util::hex_text(d.take(n as int));
        assert forall|i: int| 0 <= i < c.len() implies #[trigger] c[i] == (a + b)[i] by {
            if i < 2 * m {
                assert(d.take(n as int)[i / 2] == d.take(m as int)[i / 2]);
            } else {
                assert(i / 2 == m as int);
                assert((i - 2 * m) / 2 == 0);
                assert((i - 2 * m) % 2 == i % 2);
                assert(d.take(n as int)[i / 2] == d.subrange(m as int, n as int)[0]);
            }
        }
        assert(c =~= a + b);
    }
}

/// An address is its digits with colons between them.
pub proof fn addresses_are_their_digits(d: Seq<u8>)
    requires
        d.len() >= 6,
    ensures
        text::without(fingerprint::mac_form(d), ':') == util::hex_text(d.take(6)),
{
    let v = single_digits(d, 6);
    assert(v =~= Seq::new(6, |i: int| util::hex_text(d.subrange(i, i + 1))));
    assert forall|i: int, j: int| 0 <= i < v.len() && 0 <= j < v[i].len() implies #[trigger] v[i][j] != ':' by {
        let b = d.subrange(i, i + 1);
        assert(v[i] == util::hex_text(b));
        assert(j / 2 == 0);
    }
    lemma_colons(v);
    lemma_digits_run_on(d, 6);
}

/// An identifier is the beginning of the UUID that it is made of, without the hyphens.
pub proof fn short_ids_are_of_their_uuid(uuid: Seq<char>, n: int)
    requires
        util::uuid_text(uuid),
        0 <= n <= 12,
    ensures
        n <= 8 ==> util::short_id_text(uuid, n) == uuid.take(n),
        n > 8 ==> util::short_id_text(uuid, n) == uuid.take(8) + uuid.subrange(9, n + 1),
{
    let a = uuid.take(8);
    let m = uuid.subrange(8, 9);
    let b = uuid.subrange(9, 13);
    let r = uuid.skip(13);
    lemma_kept(a, '-');
    lemma_kept(b, '-');
    reveal_strlit("-");
    assert(m =~= "-"@);
    lemma_dash();
    lemma_without_sum(a, m, '-');
    lemma_without_sum(a + m, b, '-');
    lemma_without_sum(a + m + b, r, '-');
    assert(uuid =~= a + m + b + r);
    let c = text::without(uuid, '-');
    assert(c =~= a + b + text::without(r, '-'));
    if n <= 8 {
        assert(c.take(n) =~= uuid.take(n));
    } else {
        assert(c.take(n) =~= uuid.take(8) + uuid.subrange(9, n + 1));
    }
}

/// A header that traces a request names its trace and its span.
pub proof fn traces_are_named(trace: Seq<char>, span: Seq<char>)
    requires
        trace.len() == 32,
        span.len() == 16,
    ensures
        util::traceparent_text(trace, span).subrange(3, 35) == trace,
        util::traceparent_text(trace, span).subrange(36, 52) == span,
{
    reveal_strlit("00-");
    reveal_strlit("-");
    assert(util::traceparent_text(trace, span).subrange(3, 35) =~= trace);
    assert(util::traceparent_text(trace, span).subrange(36, 52) =~= span);
}

} // verus!
