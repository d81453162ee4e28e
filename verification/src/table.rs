//! Values by text keys.

use vstd::prelude::*;
use crate::text;
use crate::text::{no_texts, push_text, same};

verus! {

/// The value of the first entry with the key `k`.
pub open spec fn value_in<V>(es: Seq<(String, V)>, k: Seq<char>) -> Option<V>
    decreases es.len(),
{
    if es.len() == 0 {
        None
    } else if es[0].0@ == k {
        Some(es[0].1)
    } else {
        value_in(es.skip(1), k)
    }
}

/// A map from texts to values.
pub struct Table<V> {
    entries: Vec<(String, V)>,
}

spec fn unique_keys<V>(es: Seq<(String, V)>) -> bool {
    forall|i: int, j: int| 0 <= i < j < es.len() ==> es[i].0@ != es[j].0@
}

spec fn keys_in<V>(es: Seq<(String, V)>) -> Seq<Seq<char>> {
    es.map_values(|e: (String, V)| e.0@)
}

proof fn lemma_value_in<V>(es: Seq<(String, V)>, k: Seq<char>)
    ensures
        value_in(es, k) is None <==> forall|i: int| 0 <= i < es.len() ==> (#[trigger] es[i]).0@ != k,
        value_in(es, k) matches Some(v) ==> exists|i: int|
            0 <= i < es.len() && (#[trigger] es[i]).0@ == k && es[i].1 == v,
    decreases es.len(),
{
    if es.len() > 0 && es[0].0@ != k {
        let rest = es.skip(1);
        lemma_value_in(rest, k);
        if value_in(rest, k) is None {
            assert forall|i: int| 0 <= i < es.len() implies (#[trigger] es[i]).0@ != k by {
                if i > 0 {
                    assert(rest[i - 1] == es[i]);
                }
            }
        } else {
            let i = choose|i: int| 0 <= i < rest.len() && (#[trigger] rest[i]).0@ == k && rest[i].1 == value_in(rest, k)->0;
            assert(es[i + 1] == rest[i]);
        }
    }
}

proof fn lemma_value_at<V>(es: Seq<(String, V)>, i: int)
    requires
        unique_keys(es),
        0 <= i < es.len(),
    ensures
        value_in(es, es[i].0@) == Some(es[i].1),
{
    lemma_value_in(es, es[i].0@);
}

impl<V> Table<V> {
    pub closed spec fn view(&self) -> Map<Seq<char>, V> {
        Map::new(
            |k: Seq<char>| value_in(self.entries@, k) is Some,
            |k: Seq<char>| value_in(self.entries@, k)->0,
        )
    }

    /// Every key is there once.
    pub closed spec fn wf(&self) -> bool {
        unique_keys(self.entries@)
    }

    pub fn new() -> (r: Self)
        ensures
            r.wf(),
            r@ == Map::<Seq<char>, V>::empty(),
    {
        let r = Table { entries: Vec::new() };
        assert(r@ =~= Map::<Seq<char>, V>::empty());
        r
    }

    fn position(&self, k: &str) -> (r: Option<usize>)
        ensures
            match r {
                Some(i) => i < self.entries@.len() && self.entries@[i as int].0@ == k@ && value_in(
                    self.entries@,
                    k@,
                ) == Some(self.entries@[i as int].1),
                None => value_in(self.entries@, k@) is None,
            },
    {
        let ghost all = self.entries@;
        let mut i: usize = 0;
        assert(all.skip(0) =~= all);
        while i < self.entries.len()
            invariant
                i <= all.len(),
                all == self.entries@,
                value_in(all.skip(i as int), k@) == value_in(all, k@),
            decreases self.entries.len() - i,
        {
            assert(all.skip(i as int)[0] == all[i as int]);
            if same(self.entries[i].0.as_str(), k) {
                return Some(i);
            }
            assert(all.skip(i as int).skip(1) =~= all.skip(i + 1));
            i = i + 1;
        }
        None
    }

    pub fn get(&self, k: &str) -> (r: Option<&V>)
        ensures
            match r {
                Some(v) => self@.contains_key(k@) && *v == self@[k@],
                None => !self@.contains_key(k@),
            },
    {
        match self.position(k) {
            Some(i) => Some(&self.entries[i].1),
            None => None,
        }
    }

    pub fn insert(&mut self, k: &str, v: V)
        requires
            old(self).wf(),
        ensures
            final(self).wf(),
            final(self)@ == old(self)@.insert(k@, v),
    {
        let ghost before = self.entries@;
        let found = self.position(k);
        let entry = (k.to_owned(), v);
        match found {
            Some(i) => {
                self.entries.set(i, entry);
            },
            None => {
                proof {
                    lemma_value_in(before, k@);
                }
                self.entries.push(entry);
            },
        }
        proof {
            let now = self.entries@;
            assert(unique_keys(now)) by {
                if found is Some {
                    let i = found->0 as int;
                    assert forall|a: int, b: int| 0 <= a < b < now.len() implies now[a].0@ != now[b].0@ by {
                        assert(before[a].0@ != before[b].0@);
                    }
                }
            }
            assert forall|x: Seq<char>| value_in(now, x) == (if x == k@ {
                Some(v)
            } else {
                value_in(before, x)
            }) by {
                lemma_value_in(before, x);
                lemma_value_in(now, x);
                if x == k@ {
                    if found is Some {
                        lemma_value_at(now, found->0 as int);
                    } else {
                        lemma_value_at(now, before.len() as int);
                    }
                } else if value_in(before, x) is Some {
                    let i = choose|i: int|
                        0 <= i < before.len() && (#[trigger] before[i]).0@ == x && before[i].1 == value_in(before, x)->0;
                    assert(now[i] == before[i]);
                    lemma_value_at(now, i);
                } else if value_in(now, x) is Some {
                    let i = choose|i: int|
                        0 <= i < now.len() && (#[trigger] now[i]).0@ == x && now[i].1 == value_in(now, x)->0;
                    assert(before[i].0@ == x);
                }
            }
            assert(self@ =~= old(self)@.insert(k@, v));
        }
    }

    pub fn remove(&mut self, k: &str)
        requires
            old(self).wf(),
        ensures
            final(self).wf(),
            final(self)@ == old(self)@.remove(k@),
    {
        let ghost before = self.entries@;
        match self.position(k) {
            Some(i) => {
                self.entries.remove(i);
                proof {
                    let now = self.entries@;
                    let n = i as int;
                    assert(now =~= before.remove(n));
                    assert forall|a: int, b: int| 0 <= a < b < now.len() implies now[a].0@ != now[b].0@ by {
                        let a2 = if a < n { a } else { a + 1 };
                        let b2 = if b < n { b } else { b + 1 };
                        assert(before[a2].0@ != before[b2].0@);
                    }
                    assert forall|x: Seq<char>| value_in(now, x) == (if x == k@ {
                        None
                    } else {
                        value_in(before, x)
                    }) by {
                        lemma_value_in(before, x);
                        lemma_value_in(now, x);
                        if x == k@ {
                            assert forall|a: int| 0 <= a < now.len() implies (#[trigger] now[a]).0@ != x by {
                                let a2 = if a < n { a } else { a + 1 };
                                assert(now[a] == before[a2]);
                                assert(before[a2].0@ != before[n].0@);
                            }
                        } else if value_in(before, x) is Some {
                            let j = choose|j: int|
                                0 <= j < before.len() && (#[trigger] before[j]).0@ == x && before[j].1 == value_in(
                                    before,
                                    x,
                                )->0;
                            let j2 = if j < n { j } else { j - 1 };
                            assert(now[j2] == before[j]);
                            lemma_value_at(now, j2);
                        } else if value_in(now, x) is Some {
                            let j = choose|j: int|
                                0 <= j < now.len() && (#[trigger] now[j]).0@ == x && now[j].1 == value_in(now, x)->0;
                            let j2 = if j < n { j } else { j + 1 };
                            assert(now[j] == before[j2]);
                        }
                    }
                    assert(self@ =~= old(self)@.remove(k@));
                }
            },
            None => {
                assert(self@ =~= old(self)@.remove(k@));
            },
        }
    }

    /// All keys, each once.
    pub fn keys(&self) -> (r: Vec<String>)
        requires
            self.wf(),
        ensures
            text::texts(r@).no_duplicates(),
            forall|k: Seq<char>| text::texts(r@).contains(k) <==> #[trigger] self@.contains_key(k),
    {
        let ghost all = keys_in(self.entries@);
        let mut r = no_texts();
        let mut i: usize = 0;
        assert(all.take(0) =~= Seq::<Seq<char>>::empty());
        while i < self.entries.len()
            invariant
                i <= self.entries@.len(),
                all == keys_in(self.entries@),
                text::texts(r@) == all.take(i as int),
            decreases self.entries.len() - i,
        {
            push_text(&mut r, self.entries[i].0.clone());
            i = i + 1;
            assert(all.take(i as int) =~= all.take(i - 1).push(all[i - 1]));
        }
        assert(all.take(i as int) =~= all);
        proof {
            assert forall|k: Seq<char>| all.contains(k) <==> #[trigger] self@.contains_key(k) by {
                lemma_value_in(self.entries@, k);
                if all.contains(k) {
                    let j = choose|j: int| 0 <= j < all.len() && all[j] == k;
                    assert(self.entries@[j].0@ == k);
                }
                if self@.contains_key(k) {
                    let j = choose|j: int|
                        0 <= j < self.entries@.len() && (#[trigger] self.entries@[j]).0@ == k && self.entries@[j].1
                            == value_in(self.entries@, k)->0;
                    assert(all[j] == k);
                }
            }
        }
        r
    }

    /// How many keys there are.
    pub fn len(&self) -> (r: usize)
        requires
            self.wf(),
        ensures
            self@.dom().finite(),
            r == self@.dom().len(),
    {
        proof {
            let all = keys_in(self.entries@);
            all.unique_seq_to_set();
            assert forall|k: Seq<char>| all.to_set().contains(k) <==> #[trigger] self@.dom().contains(k) by {
                lemma_value_in(self.entries@, k);
                if all.contains(k) {
                    let j = choose|j: int| 0 <= j < all.len() && all[j] == k;
                    assert(self.entries@[j].0@ == k);
                }
                if self@.contains_key(k) {
                    let j = choose|j: int|
                        0 <= j < self.entries@.len() && (#[trigger] self.entries@[j]).0@ == k && self.entries@[j].1
                            == value_in(self.entries@, k)->0;
                    assert(all[j] == k);
                }
            }
            assert(self@.dom() =~= all.to_set());
        }
        self.entries.len()
    }
}

} // verus!
