//! JSON values are read as they are written.

use vstd::prelude::*;
use crate::json;
use crate::json::JsonV;

verus! {

/// The text that a member holds.
pub open spec fn text_in(j: JsonV, k: Seq<char>) -> Option<Seq<char>> {
    match j.get(k) {
        Some(JsonV::Str(s)) => Some(s),
        _ => None,
    }
}

/// The text that a member holds, or another.
pub open spec fn text_or(j: JsonV, k: Seq<char>, other: Seq<char>) -> Seq<char> {
    match j.get(k) {
        Some(JsonV::Str(s)) => s,
        _ => other,
    }
}

/// The list that a member holds; an empty one where it holds none.
pub open spec fn list_in(j: JsonV, k: Seq<char>) -> Seq<JsonV> {
    match j.get(k) {
        Some(JsonV::Array(v)) => v,
        _ => Seq::empty(),
    }
}

/// The member of a member.
pub open spec fn inner(j: JsonV, a: Seq<char>, b: Seq<char>) -> Option<JsonV> {
    match j.get(a) {
        Some(x) => x.get(b),
        None => None,
    }
}

/// The text of a value: a text as it stands, nothing of null or of what is not there, and the
/// JSON text of anything else.
pub open spec fn plain(v: Option<JsonV>) -> Seq<char> {
    match v {
        None => Seq::empty(),
        Some(JsonV::Null) => Seq::empty(),
        Some(JsonV::Str(s)) => s,
        Some(j) => json::json_text(j),
    }
}

/// Texts one behind the other.
pub open spec fn run_on(v: Seq<Seq<char>>) -> Seq<char>
    decreases v.len(),
{
    if v.len() == 0 {
        Seq::empty()
    } else {
        run_on(v.drop_last()) + v.last()
    }
}

/// A member that is set where there is a value is read back, and the others are as they were.
pub broadcast proof fn get_of_with_some(j: JsonV, k: Seq<char>, o: Option<JsonV>, k2: Seq<char>)
    requires
        j is Object,
    ensures
        #[trigger] j.with_some(k, o).get(k2) == (if o is Some && k == k2 {
            o
        } else {
            j.get(k2)
        }),
{
    broadcast use json::group_members;

    if let Some(v) = o {
        assert(j.with(k, v).get(k2) == (if k == k2 {
            Some(v)
        } else {
            j.get(k2)
        }));
    }
}

pub broadcast group group_reading {
    json::get_of_with,
    json::get_of_obj,
    get_of_with_some,
}

/// A member is found under its name: the first of that name.
pub proof fn members_are_found(es: json::Members, i: int)
    requires
        0 <= i < es.len(),
        forall|j: int| 0 <= j < i ==> (#[trigger] es[j]).0 != es[i].0,
    ensures
        JsonV::Object(es).get(es[i].0) == Some(es[i].1),
    decreases es.len(),
{
    if i > 0 {
        assert(es[0].0 != es[i].0);
        let r = es.skip(1);
        assert forall|j: int| 0 <= j < i - 1 implies (#[trigger] r[j]).0 != r[i - 1].0 by {
            assert(r[j] == es[j + 1]);
        }
        members_are_found(r, i - 1);
    }
}

/// No member is found under a name that none has, nor in a value that is no object.
pub proof fn other_members_are_not_found(j: JsonV, k: Seq<char>)
    ensures
        !(j is Object) ==> j.get(k) is None,
        j matches JsonV::Object(es) ==> (forall|i: int| 0 <= i < es.len() ==> (#[trigger] es[i]).0 != k) ==> j.get(k)
            is None,
    decreases j,
{
    if let JsonV::Object(es) = j {
        if (forall|i: int| 0 <= i < es.len() ==> (#[trigger] es[i]).0 != k) && es.len() > 0 {
            assert(es[0].0 != k);
            let r = es.skip(1);
            assert forall|i: int| 0 <= i < r.len() implies (#[trigger] r[i]).0 != k by {
                assert(r[i] == es[i + 1]);
            }
            lemma_not_found(r, k);
        }
    }
}

proof fn lemma_not_found(es: json::Members, k: Seq<char>)
    requires
        forall|i: int| 0 <= i < es.len() ==> (#[trigger] es[i]).0 != k,
    ensures
        json::lookup(es, k) is None,
    decreases es.len(),
{
    if es.len() > 0 {
        assert(es[0].0 != k);
        let r = es.skip(1);
        assert forall|i: int| 0 <= i < r.len() implies (#[trigger] r[i]).0 != k by {
            assert(r[i] == es[i + 1]);
        }
        lemma_not_found(r, k);
    }
}

/// A member that holds a text is read as that text, and one that holds a list as that list;
/// nothing else is.
pub proof fn members_are_read_as_they_stand(j: JsonV, k: Seq<char>, other: Seq<char>)
    ensures
        j.get(k) matches Some(JsonV::Str(s)) ==> j.get_str(k) == Some(s) && j.str_or(k, other) == s,
        !(j.get(k) matches Some(JsonV::Str(_))) ==> j.get_str(k) is None && j.str_or(k, other) == other
            && j.get_nonempty(k) is None,
        j.get(k) matches Some(JsonV::Str(s)) ==> j.get_nonempty(k) == (if s.len() > 0 {
            Some(s)
        } else {
            None
        }),
        j.get(k) matches Some(JsonV::Array(v)) ==> j.items(k) == v,
        !(j.get(k) matches Some(JsonV::Array(_))) ==> j.items(k).len() == 0,
        j.get_nonnull(k) is Some <==> j.get(k) is Some && j.get(k) != Some(JsonV::Null),
        j.get_nonnull(k) is Some ==> j.get_nonnull(k) == j.get(k),
        j.get_object(k) is Some <==> (j.get(k) matches Some(JsonV::Object(_))),
        j.get_object(k) is Some ==> j.get_object(k) == j.get(k),
        j.or_null(k) == (if j.get(k) is Some {
            j.get(k)->0
        } else {
            JsonV::Null
        }),
{
}

/// Texts run on over two lists are those of the one and those of the other.
pub proof fn lemma_run_on_sum(a: Seq<Seq<char>>, b: Seq<Seq<char>>)
    ensures
        run_on(a + b) == run_on(a) + run_on(b),
    decreases b.len(),
{
    if b.len() == 0 {
        assert(a + b =~= a);
        assert(run_on(a) + run_on(b) =~= run_on(a));
    } else {
        assert((a + b).drop_last() =~= a + b.drop_last());
        lemma_run_on_sum(a, b.drop_last());
        assert(run_on(a + b) =~= run_on(a) + run_on(b));
    }
}

} // verus!
