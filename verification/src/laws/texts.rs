//! Texts are put together and taken apart as they stand.

use vstd::prelude::*;
use crate::text;
use crate::util;

verus! {

/// Texts are joined in their order, with the separator between each two.
pub proof fn texts_are_joined(v: Seq<Seq<char>>, x: Seq<char>, sep: Seq<char>)
    ensures
        text::joined(Seq::empty(), sep).len() == 0,
        text::joined(seq![x], sep) == x,
        v.len() > 0 ==> text::joined(v.push(x), sep) == text::joined(v, sep) + sep + x,
{
    assert(v.push(x).drop_last() =~= v);
}

/// A text that begins with another is what follows behind it, and no other text is.
pub proof fn prefixes_are_found(p: Seq<char>, rest: Seq<char>, s: Seq<char>)
    ensures
        text::has_prefix(p + rest, p),
        text::after_prefix(p + rest, p) == Some(rest),
        text::has_prefix(s, p) <==> s.len() >= p.len() && s.take(p.len() as int) == p,
        text::after_prefix(s, p) is Some <==> text::has_prefix(s, p),
{
    assert((p + rest).take(p.len() as int) =~= p);
    assert((p + rest).skip(p.len() as int) =~= rest);
}

proof fn lemma_first(a: Seq<char>, c: char, b: Seq<char>, set: Seq<char>)
    requires
        forall|i: int| 0 <= i < a.len() ==> !set.contains(#[trigger] a[i]),
        set.contains(c),
    ensures
        text::first_of(a + seq![c] + b, set) == a.len(),
    decreases a.len(),
{
    let s = a + seq![c] + b;
    if a.len() > 0 {
        assert(s[0] == a[0]);
        assert(s.skip(1) =~= a.skip(1) + seq![c] + b);
        assert forall|i: int| 0 <= i < a.skip(1).len() implies !set.contains(#[trigger] a.skip(1)[i]) by {
            assert(a.skip(1)[i] == a[i + 1]);
        }
        lemma_first(a.skip(1), c, b, set);
    } else {
        assert(s[0] == c);
    }
}

/// A data URL names the media type that stands in front of its first `;` or `,`; another URL
/// names none.
pub proof fn media_types_are_named(mt: Seq<char>, c: char, rest: Seq<char>, url: Seq<char>)
    requires
        mt.len() > 0,
        forall|i: int| 0 <= i < mt.len() ==> #[trigger] mt[i] != ';' && mt[i] != ',',
        c == ';' || c == ',',
    ensures
        util::media_type_of("data:"@ + (mt + seq![c] + rest)) == Some(mt),
        !text::has_prefix(url, "data:"@) ==> util::media_type_of(url) is None,
{
    reveal_strlit(";,");
    let set = ";,"@;
    assert(set =~= seq![';', ',']);
    assert(set[0] == ';' && set[1] == ',');
    prefixes_are_found("data:"@, mt + seq![c] + rest, url);
    assert forall|i: int| 0 <= i < mt.len() implies !set.contains(#[trigger] mt[i]) by {}
    lemma_first(mt, c, rest, set);
    assert((mt + seq![c] + rest).take(mt.len() as int) =~= mt);
}

/// In a text of ASCII characters each capital becomes its small letter, and all else stays.
pub proof fn capitals_are_lowered(s: Seq<char>, i: int)
    requires
        forall|j: int| 0 <= j < s.len() ==> ((#[trigger] s[j]) as u32) < 128,
        0 <= i < s.len(),
    ensures
        text::lowercase(s).len() == s.len(),
        'A' <= s[i] <= 'Z' ==> text::lowercase(s)[i] as int == s[i] as int + 32,
        !('A' <= s[i] <= 'Z') ==> text::lowercase(s)[i] == s[i],
{
}

/// Blanks, tabs and the ends of lines are white space; letters, digits and marks of ASCII are not.
pub proof fn white_space_is_known(c: char)
    ensures
        c == ' ' || c == '\t' || c == '\n' || c == '\r' ==> text::is_space(c),
        '!' <= c <= '~' ==> !text::is_space(c),
{
}

} // verus!
