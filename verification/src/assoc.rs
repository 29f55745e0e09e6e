//! A small association map keyed by strings.
//!
//! The server keys its document set, its module-name bindings and its module
//! cache by strings.  This map stores its entries in a vector with pairwise
//! distinct keys and presents itself as a `Map<Seq<char>, V>`.

use vstd::prelude::*;

verus! {

/// True when some entry of `s` has key `k`.
pub open spec fn has_key<V>(s: Seq<(String, V)>, k: Seq<char>) -> bool {
    exists|i: int| 0 <= i < s.len() && s[i].0@ == k
}

/// The index of the entry with key `k`.
pub open spec fn index_of<V>(s: Seq<(String, V)>, k: Seq<char>) -> int {
    choose|i: int| 0 <= i < s.len() && s[i].0@ == k
}

/// A map from strings to values of `V`, with at most one entry per key.
pub struct AssocMap<V> {
    entries: Vec<(String, V)>,
}

impl<V> AssocMap<V> {
    /// No two entries share a key.
    pub closed spec fn wf(&self) -> bool {
        forall|i: int, j: int|
            0 <= i < j < self.entries@.len() ==> self.entries@[i].0@ != self.entries@[j].0@
    }

    /// The entries, in insertion order.
    pub closed spec fn entries_seq(&self) -> Seq<(String, V)> {
        self.entries@
    }

    pub open spec fn view(&self) -> Map<Seq<char>, V> {
        Map::new(
            |k: Seq<char>| has_key(self.entries_seq(), k),
            |k: Seq<char>| self.entries_seq()[index_of(self.entries_seq(), k)].1,
        )
    }

    pub fn new() -> (r: AssocMap<V>)
        ensures
            r.wf(),
            r@ == Map::<Seq<char>, V>::empty(),
    {
        let r = AssocMap { entries: Vec::new() };
        proof {
            assert(r@ =~= Map::<Seq<char>, V>::empty());
        }
        r
    }

    /// The view's domain is finite, with one key per entry.
    pub proof fn lemma_dom_finite(&self)
        requires
            self.wf(),
        ensures
            self@.dom().finite(),
            self@.dom().len() == self.entries_seq().len(),
    {
        let keys = self.entries_seq().map_values(|p: (String, V)| p.0@);
        assert(keys.no_duplicates()) by {
            assert forall|i: int, j: int|
                0 <= i < keys.len() && 0 <= j < keys.len() && i != j implies keys[i] != keys[j] by {
                if i < j {
                    assert(self.entries_seq()[i].0@ != self.entries_seq()[j].0@);
                } else {
                    assert(self.entries_seq()[j].0@ != self.entries_seq()[i].0@);
                }
            }
        }
        keys.unique_seq_to_set();
        assert(self@.dom() =~= keys.to_set()) by {
            assert forall|k: Seq<char>| self@.dom().contains(k) implies keys.to_set().contains(
                k,
            ) by {
                let w = index_of(self.entries_seq(), k);
                assert(keys[w] == k);
                assert(keys.contains(k));
            }
            assert forall|k: Seq<char>| keys.to_set().contains(k) implies self@.dom().contains(
                k,
            ) by {
                let w = choose|w: int| 0 <= w < keys.len() && keys[w] == k;
                assert(self.entries_seq()[w].0@ == k);
            }
        }
    }

    proof fn lemma_entry_is_view(&self, i: int)
        requires
            self.wf(),
            0 <= i < self.entries_seq().len(),
        ensures
            self@.contains_key(self.entries_seq()[i].0@),
            self@[self.entries_seq()[i].0@] == self.entries_seq()[i].1,
    {
        let s = self.entries_seq();
        let k = s[i].0@;
        assert(has_key(s, k));
        let j = index_of(s, k);
        assert(s[j].0@ == k);
        if i != j {
            if i < j {
                assert(s[i].0@ != s[j].0@);
            } else {
                assert(s[j].0@ != s[i].0@);
            }
        }
    }

    /// Look the key up, returning a reference to its value if it is bound.
    pub fn get(&self, k: &String) -> (r: Option<&V>)
        requires
            self.wf(),
        ensures
            match r {
                Option::Some(v) => self@.contains_key(k@) && *v == self@[k@],
                Option::None => !self@.contains_key(k@),
            },
    {
        let n = self.entries.len();
        let mut i: usize = 0;
        while i < n
            invariant
                self.wf(),
                n == self.entries_seq().len(),
                0 <= i <= n,
                forall|j: int| 0 <= j < i ==> self.entries_seq()[j].0@ != k@,
            decreases n - i,
        {
            if self.entries[i].0.eq(k) {
                proof {
                    self.lemma_entry_is_view(i as int);
                }
                return Some(&self.entries[i].1);
            }
            i = i + 1;
        }
        proof {
            if self@.contains_key(k@) {
                let w = index_of(self.entries_seq(), k@);
                assert(self.entries_seq()[w].0@ == k@);
            }
        }
        None
    }

    /// True when the key is bound.
    pub fn contains_key(&self, k: &String) -> (r: bool)
        requires
            self.wf(),
        ensures
            r == self@.contains_key(k@),
    {
        self.get(k).is_some()
    }

    /// Bind the key to the value, replacing any previous binding for it.
    pub fn insert(&mut self, k: String, v: V)
        requires
            old(self).wf(),
        ensures
            final(self).wf(),
            final(self)@ == old(self)@.insert(k@, v),
    {
        let n = self.entries.len();
        let mut i: usize = 0;
        while i < n
            invariant
                self.wf(),
                self == old(self),
                n == self.entries_seq().len(),
                0 <= i <= n,
                forall|j: int| 0 <= j < i ==> self.entries_seq()[j].0@ != k@,
            decreases n - i,
        {
            if self.entries[i].0.eq(&k) {
                let ghost olds = self.entries_seq();
                self.entries[i] = (k, v);
                proof {
                    let news = self.entries_seq();
                    assert(news =~= olds.update(i as int, news[i as int]));
                    assert forall|p: int, q: int|
                        0 <= p < q < news.len() implies news[p].0@ != news[q].0@ by {
                        assert(olds[p].0@ != olds[q].0@);
                    }
                    assert forall|kk: Seq<char>| has_key(news, kk) == has_key(olds, kk) by {
                        if has_key(news, kk) {
                            let w = choose|w: int| 0 <= w < news.len() && news[w].0@ == kk;
                            assert(olds[w].0@ == kk);
                        }
                        if has_key(olds, kk) {
                            let w = choose|w: int| 0 <= w < olds.len() && olds[w].0@ == kk;
                            assert(news[w].0@ == kk);
                        }
                    }
                    assert(self@ =~= old(self)@.insert(news[i as int].0@, news[i as int].1)) by {
                        assert forall|kk: Seq<char>| self@.dom().contains(kk) implies old(
                            self,
                        )@.insert(news[i as int].0@, news[i as int].1).dom().contains(kk) by {}
                        assert forall|kk: Seq<char>|
                            #[trigger] self@.dom().contains(kk) implies self@[kk] == old(
                            self,
                        )@.insert(news[i as int].0@, news[i as int].1)[kk] by {
                            let w = index_of(news, kk);
                            assert(news[w].0@ == kk);
                            if kk == news[i as int].0@ {
                                if w != i {
                                    if w < i {
                                        assert(news[w].0@ != news[i as int].0@);
                                    } else {
                                        assert(news[i as int].0@ != news[w].0@);
                                    }
                                }
                            } else {
                                assert(w != i);
                                assert(olds[w] == news[w]);
                                let w2 = index_of(olds, kk);
                                assert(olds[w2].0@ == kk);
                                if w != w2 {
                                    if w < w2 {
                                        assert(olds[w].0@ != olds[w2].0@);
                                    } else {
                                        assert(olds[w2].0@ != olds[w].0@);
                                    }
                                }
                            }
                        }
                    }
                }
                return ;
            }
            i = i + 1;
        }
        let ghost olds = self.entries_seq();
        self.entries.push((k, v));
        proof {
            let news = self.entries_seq();
            assert(news =~= olds.push(news.last()));
            assert forall|p: int, q: int|
                0 <= p < q < news.len() implies news[p].0@ != news[q].0@ by {
            }
            assert(self@ =~= old(self)@.insert(news.last().0@, news.last().1)) by {
                assert forall|kk: Seq<char>|
                    #[trigger] self@.dom().contains(kk) implies self@[kk] == old(self)@.insert(
                    news.last().0@,
                    news.last().1,
                )[kk] by {
                    let w = index_of(news, kk);
                    assert(news[w].0@ == kk);
                    if kk == news.last().0@ {
                        if w != news.len() - 1 {
                            assert(news[w].0@ != news.last().0@);
                        }
                    } else {
                        assert(w != news.len() - 1);
                        let w2 = index_of(olds, kk);
                        assert(olds[w2].0@ == kk);
                        if w != w2 {
                            if w < w2 {
                                assert(olds[w].0@ != olds[w2].0@);
                            } else {
                                assert(olds[w2].0@ != olds[w].0@);
                            }
                        }
                    }
                }
                assert forall|kk: Seq<char>|
                    old(self)@.insert(news.last().0@, news.last().1).dom().contains(
                        kk,
                    ) implies self@.dom().contains(kk) by {
                    if kk == news.last().0@ {
                        assert(news.last().0@ == kk);
                    } else {
                        let w2 = index_of(olds, kk);
                        assert(news[w2].0@ == kk);
                    }
                }
            }
        }
    }

    /// Drop the key's binding, if any.
    pub fn remove(&mut self, k: &String)
        requires
            old(self).wf(),
        ensures
            final(self).wf(),
            final(self)@ == old(self)@.remove(k@),
    {
        let n = self.entries.len();
        let mut i: usize = 0;
        while i < n
            invariant
                self.wf(),
                self == old(self),
                n == self.entries_seq().len(),
                0 <= i <= n,
                forall|j: int| 0 <= j < i ==> self.entries_seq()[j].0@ != k@,
            decreases n - i,
        {
            if self.entries[i].0.eq(k) {
                let ghost olds = self.entries_seq();
                self.entries.remove(i);
                proof {
                    let news = self.entries_seq();
                    assert forall|p: int, q: int|
                        0 <= p < q < news.len() implies news[p].0@ != news[q].0@ by {
                        let p0 = if p < i as int {
                            p
                        } else {
                            p + 1
                        };
                        let q0 = if q < i as int {
                            q
                        } else {
                            q + 1
                        };
                        assert(olds[p0].0@ != olds[q0].0@);
                    }
                    assert(self@ =~= old(self)@.remove(k@)) by {
                        assert forall|kk: Seq<char>|
                            #[trigger] self@.dom().contains(kk) implies old(self)@.remove(
                            k@,
                        ).dom().contains(kk) && self@[kk] == old(self)@[kk] by {
                            let w = index_of(news, kk);
                            assert(news[w].0@ == kk);
                            let w0 = if w < i as int {
                                w
                            } else {
                                w + 1
                            };
                            assert(olds[w0].0@ == kk);
                            if w0 == i as int {
                                assert(olds[i as int].0@ == k@);
                            }
                            assert(kk != k@) by {
                                if kk == k@ {
                                    if w0 < i as int {
                                        assert(olds[w0].0@ != olds[i as int].0@);
                                    } else {
                                        assert(olds[i as int].0@ != olds[w0].0@);
                                    }
                                }
                            }
                            let w2 = index_of(olds, kk);
                            assert(olds[w2].0@ == kk);
                            if w0 != w2 {
                                if w0 < w2 {
                                    assert(olds[w0].0@ != olds[w2].0@);
                                } else {
                                    assert(olds[w2].0@ != olds[w0].0@);
                                }
                            }
                        }
                        assert forall|kk: Seq<char>|
                            old(self)@.remove(k@).dom().contains(kk) implies self@.dom().contains(
                            kk,
                        ) by {
                            let w2 = index_of(olds, kk);
                            assert(olds[w2].0@ == kk);
                            assert(w2 != i as int);
                            let w = if w2 < i as int {
                                w2
                            } else {
                                w2 - 1
                            };
                            assert(news[w].0@ == kk);
                        }
                    }
                }
                return ;
            }
            i = i + 1;
        }
        proof {
            assert(self@ =~= old(self)@.remove(k@)) by {
                if old(self)@.contains_key(k@) {
                    let w = index_of(self.entries_seq(), k@);
                    assert(self.entries_seq()[w].0@ == k@);
                }
            }
        }
    }
}

impl AssocMap<String> {
    /// The first key bound to the given value, scanning in insertion
    /// order.
    pub fn key_of_value(&self, v: &String) -> (r: Option<&String>)
        requires
            self.wf(),
        ensures
            match r {
                Option::Some(k) => self@.contains_key(k@) && self@[k@]@ == v@,
                Option::None => forall|nm: Seq<char>|
                    #[trigger] self@.contains_key(nm) ==> self@[nm]@ != v@,
            },
    {
        let n = self.entries.len();
        let mut i: usize = 0;
        while i < n
            invariant
                self.wf(),
                n == self.entries_seq().len(),
                0 <= i <= n,
                forall|j: int| 0 <= j < i ==> self.entries_seq()[j].1@ != v@,
            decreases n - i,
        {
            if self.entries[i].1.eq(v) {
                proof {
                    self.lemma_entry_is_view(i as int);
                }
                return Some(&self.entries[i].0);
            }
            i = i + 1;
        }
        proof {
            assert forall|nm: Seq<char>| #[trigger] self@.contains_key(nm) implies self@[nm]@
                != v@ by {
                let w = index_of(self.entries_seq(), nm);
                assert(self.entries_seq()[w].0@ == nm);
            }
        }
        None
    }
}

} // verus!
