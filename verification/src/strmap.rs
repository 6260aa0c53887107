//! A map from strings, kept as a list.
use vstd::prelude::*;

use crate::text;

verus! {

/// A map from strings: a list of entries, no two of which have one key.
pub struct StrMap<V> {
    pub entries: Vec<(String, V)>,
}

/// The place of `key` in a list of entries.
pub open spec fn is_at<V>(s: Seq<(String, V)>, key: Seq<char>, i: int) -> bool {
    0 <= i < s.len() && s[i].0@ == key
}

pub open spec fn has<V>(s: Seq<(String, V)>, key: Seq<char>) -> bool {
    exists|i: int| #[trigger] is_at(s, key, i)
}

pub open spec fn place<V>(s: Seq<(String, V)>, key: Seq<char>) -> int {
    choose|i: int| #[trigger] is_at(s, key, i)
}

pub open spec fn distinct<V>(s: Seq<(String, V)>) -> bool {
    forall|i: int, j: int| 0 <= i < j < s.len() ==> (#[trigger] s[i]).0@ != (#[trigger] s[j]).0@
}

impl<V> View for StrMap<V> {
    type V = Map<Seq<char>, V>;

    open spec fn view(&self) -> Map<Seq<char>, V> {
        Map::new(
            |k: Seq<char>| has(self.entries@, k),
            |k: Seq<char>| self.entries@[place(self.entries@, k)].1,
        )
    }
}

impl<V> StrMap<V> {
    /// No two entries have one key.
    pub open spec fn wf(&self) -> bool {
        distinct(self.entries@)
    }

    /// How many entries there are.
    pub open spec fn count(&self) -> nat {
        self.entries@.len()
    }

    pub fn new() -> (r: StrMap<V>)
        ensures
            r.wf(),
            r@ == Map::<Seq<char>, V>::empty(),
            r.count() == 0,
    {
        let r = StrMap { entries: Vec::new() };
        assert(r@ =~= Map::<Seq<char>, V>::empty());
        r
    }

    /// The entry at a place is the entry of its key.
    pub proof fn entry_is_mapped(&self, i: int)
        requires
            self.wf(),
            0 <= i < self.entries@.len(),
        ensures
            self@.dom().contains(self.entries@[i].0@),
            self@[self.entries@[i].0@] == self.entries@[i].1,
    {
        let k = self.entries@[i].0@;
        assert(is_at(self.entries@, k, i));
        let p = place(self.entries@, k);
        assert(is_at(self.entries@, k, p));
        if p < i {
            assert(self.entries@[p].0@ != self.entries@[i].0@);
        }
        if i < p {
            assert(self.entries@[i].0@ != self.entries@[p].0@);
        }
    }

    /// Where the entry of `key` is.
    pub fn find(&self, key: &str) -> (r: Option<usize>)
        requires
            self.wf(),
        ensures
            match r {
                Some(i) => is_at(self.entries@, key@, i as int) && self@.dom().contains(key@)
                    && self@[key@] == self.entries@[i as int].1,
                None => !self@.dom().contains(key@),
            },
    {
        let mut i: usize = 0;
        while i < self.entries.len()
            invariant
                self.wf(),
                i <= self.entries.len(),
                forall|j: int| 0 <= j < i ==> (#[trigger] self.entries@[j]).0@ != key@,
            decreases self.entries.len() - i,
        {
            if text::str_eq(self.entries[i].0.as_str(), key) {
                proof {
                    self.entry_is_mapped(i as int);
                }
                return Some(i);
            }
            i = i + 1;
        }
        proof {
            if has(self.entries@, key@) {
                let p = place(self.entries@, key@);
                assert(is_at(self.entries@, key@, p));
                assert(self.entries@[p].0@ != key@);
            }
        }
        None
    }

    pub fn get(&self, key: &str) -> (r: Option<&V>)
        requires
            self.wf(),
        ensures
            match r {
                Some(v) => self@.dom().contains(key@) && *v == self@[key@],
                None => !self@.dom().contains(key@),
            },
    {
        match self.find(key) {
            Some(i) => Some(&self.entries[i].1),
            None => None,
        }
    }

    pub fn contains(&self, key: &str) -> (r: bool)
        requires
            self.wf(),
        ensures
            r == self@.dom().contains(key@),
    {
        self.find(key).is_some()
    }

    pub fn len(&self) -> (r: usize)
        ensures
            r == self.count(),
    {
        self.entries.len()
    }

    /// Takes the entry of `key` out.
    pub fn remove(&mut self, key: &str) -> (r: Option<V>)
        requires
            old(self).wf(),
        ensures
            final(self).wf(),
            final(self)@ == old(self)@.remove(key@),
            match r {
                Some(v) => old(self)@.dom().contains(key@) && v == old(self)@[key@]
                    && final(self).count() == old(self).count() - 1,
                None => !old(self)@.dom().contains(key@) && *final(self) == *old(self),
            },
    {
        match self.find(key) {
            Some(i) => {
                let ghost before = *self;
                let e = self.entries.remove(i);
                proof {
                    let a = before.entries@;
                    let b = self.entries@;
                    assert(b =~= a.remove(i as int));
                    assert forall|x: int, y: int| 0 <= x < y < b.len() implies (#[trigger] b[x]).0@
                        != (#[trigger] b[y]).0@ by {
                        let ax = if x < i {
                            x
                        } else {
                            x + 1
                        };
                        let ay = if y < i {
                            y
                        } else {
                            y + 1
                        };
                        assert(a[ax].0@ != a[ay].0@);
                    }
                    assert forall|k: Seq<char>| has(b, k) <==> has(a, k) && k != key@ by {
                        if has(b, k) {
                            let p = place(b, k);
                            assert(is_at(b, k, p));
                            let q = if p < i {
                                p
                            } else {
                                p + 1
                            };
                            assert(is_at(a, k, q));
                            if k == key@ {
                                if q < i {
                                    assert(a[q].0@ != a[i as int].0@);
                                } else {
                                    assert(a[i as int].0@ != a[q].0@);
                                }
                            }
                        }
                        if has(a, k) && k != key@ {
                            let p = place(a, k);
                            assert(is_at(a, k, p));
                            let q = if p < i {
                                p
                            } else {
                                p - 1
                            };
                            assert(is_at(b, k, q));
                        }
                    }
                    assert(self@.dom() =~= before@.remove(key@).dom());
                    assert forall|k: Seq<char>| self@.dom().contains(k) implies self@[k]
                        == before@[k] by {
                        let p = place(b, k);
                        assert(is_at(b, k, p));
                        let q = if p < i {
                            p
                        } else {
                            p + 1
                        };
                        before.entry_is_mapped(q);
                    }
                    assert(self@ =~= before@.remove(key@));
                }
                Some(e.1)
            },
            None => {
                assert(self@ =~= self@.remove(key@));
                None
            },
        }
    }

    /// Sets the entry of `key`.
    pub fn insert(&mut self, key: &str, value: V)
        requires
            old(self).wf(),
        ensures
            final(self).wf(),
            final(self)@ == old(self)@.insert(key@, value),
            final(self).count() == (if old(self)@.dom().contains(key@) {
                old(self).count()
            } else {
                old(self).count() + 1
            }),
    {
        let removed = self.remove(key);
        let ghost before = *self;
        let entry = (text::owned(key), value);
        self.entries.push(entry);
        proof {
            let a = before.entries@;
            let b = self.entries@;
            let n = a.len() as int;
            assert(b =~= a.push(entry));
            assert forall|x: int, y: int| 0 <= x < y < b.len() implies (#[trigger] b[x]).0@ != (
            #[trigger] b[y]).0@ by {
                if y == n {
                    if b[x].0@ == key@ {
                        assert(is_at(a, key@, x));
                        assert(before@.dom().contains(key@));
                    }
                } else {
                    assert(a[x].0@ != a[y].0@);
                }
            }
            assert forall|k: Seq<char>| has(b, k) <==> has(a, k) || k == key@ by {
                if has(b, k) {
                    let p = place(b, k);
                    assert(is_at(b, k, p));
                    if p < n {
                        assert(is_at(a, k, p));
                    }
                }
                if has(a, k) {
                    let p = place(a, k);
                    assert(is_at(a, k, p));
                    assert(is_at(b, k, p));
                }
                if k == key@ {
                    assert(is_at(b, k, n));
                }
            }
            let m = old(self)@;
            assert(before@ == m.remove(key@));
            assert forall|k: Seq<char>| self@.dom().contains(k) <==> m.insert(
                key@,
                value,
            ).dom().contains(k) by {
                assert(has(a, k) <==> before@.dom().contains(k));
                assert(has(b, k) <==> self@.dom().contains(k));
            }
            assert(self@.dom() =~= m.insert(key@, value).dom());
            assert forall|k: Seq<char>| self@.dom().contains(k) implies self@[k] == old(
                self,
            )@.insert(key@, value)[k] by {
                if k == key@ {
                    self.entry_is_mapped(n);
                } else {
                    let p = place(a, k);
                    assert(is_at(a, k, p));
                    self.entry_is_mapped(p);
                    before.entry_is_mapped(p);
                }
            }
            assert(self@ =~= old(self)@.insert(key@, value));
        }
    }
}

impl<V> StrMap<V> {
    /// Takes the entries of all `keys` out.
    pub fn remove_all(&mut self, keys: &Vec<String>)
        requires
            old(self).wf(),
        ensures
            final(self).wf(),
            final(self)@ == old(self)@.remove_keys(text::texts(keys@).to_set()),
    {
        let ghost all = text::texts(keys@);
        let mut i: usize = 0;
        proof {
            assert(all.take(0).to_set() =~= Set::<Seq<char>>::empty());
            assert(self@ =~= old(self)@.remove_keys(all.take(0).to_set()));
        }
        while i < keys.len()
            invariant
                i <= keys.len(),
                all == text::texts(keys@),
                self.wf(),
                self@ == old(self)@.remove_keys(all.take(i as int).to_set()),
            decreases keys.len() - i,
        {
            let ghost k = keys@[i as int]@;
            self.remove(keys[i].as_str());
            proof {
                let a = all.take(i as int);
                let b = all.take(i + 1);
                assert(b =~= a.push(k));
                assert forall|x: Seq<char>| b.to_set().contains(x) <==> a.to_set().contains(x) || x
                    == k by {
                    if a.contains(x) {
                        let j = choose|j: int| 0 <= j < a.len() && a[j] == x;
                        assert(b[j] == x);
                    }
                    if x == k {
                        assert(b[i as int] == k);
                    }
                    if b.contains(x) {
                        let j = choose|j: int| 0 <= j < b.len() && b[j] == x;
                        if j < i {
                            assert(a[j] == x);
                        }
                    }
                }
                assert(self@ =~= old(self)@.remove_keys(b.to_set()));
            }
            i = i + 1;
        }
        assert(all.take(all.len() as int) =~= all);
    }
}

/// `keys` are the keys of `m` whose values satisfy `p`.
pub open spec fn are_keys_where<V>(
    keys: Seq<Seq<char>>,
    m: Map<Seq<char>, V>,
    p: spec_fn(V) -> bool,
) -> bool {
    &&& keys.no_duplicates()
    &&& forall|k: Seq<char>| #[trigger] keys.contains(k) <==> m.dom().contains(k) && p(m[k])
}

impl<V> StrMap<V> {
    /// The keys whose values satisfy a test.
    pub(crate) fn keys_where<F: Fn(&V) -> bool>(&self, f: F, Ghost(p): Ghost<spec_fn(V) -> bool>) -> (r:
        Vec<String>)
        requires
            self.wf(),
            forall|v: V| #[trigger] f.requires((&v,)),
            forall|v: V, b: bool| #[trigger] f.ensures((&v,), b) ==> b == p(v),
        ensures
            are_keys_where(text::texts(r@), self@, p),
    {
        let mut out: Vec<String> = Vec::new();
        let ghost all = self.entries@;
        let mut i: usize = 0;
        while i < self.entries.len()
            invariant
                i <= self.entries.len(),
                self.wf(),
                all == self.entries@,
                forall|v: V| #[trigger] f.requires((&v,)),
                forall|v: V, b: bool| #[trigger] f.ensures((&v,), b) ==> b == p(v),
                text::texts(out@).no_duplicates(),
                forall|k: Seq<char>|
                    #[trigger] text::texts(out@).contains(k) <==> exists|j: int|
                        0 <= j < i && #[trigger] is_at(all, k, j) && p(all[j].1),
            decreases self.entries.len() - i,
        {
            let ghost before = text::texts(out@);
            let ghost key = all[i as int].0@;
            proof {
                if before.contains(key) {
                    let j = choose|j: int|
                        0 <= j < i && #[trigger] is_at(all, key, j) && p(all[j].1);
                    assert(all[j].0@ != all[i as int].0@);
                }
            }
            if f(&self.entries[i].1) {
                let copy = self.entries[i].0.clone();
                proof {
                    text::texts_push(out@, copy);
                }
                out.push(copy);
            }
            proof {
                let after = text::texts(out@);
                assert forall|k: Seq<char>|
                    #[trigger] after.contains(k) <==> exists|j: int|
                        0 <= j < i + 1 && #[trigger] is_at(all, k, j) && p(all[j].1) by {
                    if after.contains(k) {
                        let j = choose|j: int| 0 <= j < after.len() && after[j] == k;
                        if j < before.len() {
                            assert(before[j] == k);
                            assert(before.contains(k));
                        } else {
                            assert(is_at(all, k, i as int));
                        }
                    }
                    if exists|j: int| 0 <= j < i + 1 && #[trigger] is_at(all, k, j) && p(all[j].1) {
                        let j = choose|j: int|
                            0 <= j < i + 1 && #[trigger] is_at(all, k, j) && p(all[j].1);
                        if j < i {
                            assert(before.contains(k));
                            let x = choose|x: int| 0 <= x < before.len() && before[x] == k;
                            assert(after[x] == k);
                        } else {
                            assert(after[after.len() - 1] == k);
                        }
                    }
                }
            }
            i = i + 1;
        }
        proof {
            assert forall|k: Seq<char>|
                #[trigger] text::texts(out@).contains(k) <==> self@.dom().contains(k) && p(
                    self@[k],
                ) by {
                if text::texts(out@).contains(k) {
                    let j = choose|j: int|
                        0 <= j < all.len() && #[trigger] is_at(all, k, j) && p(all[j].1);
                    self.entry_is_mapped(j);
                }
                if self@.dom().contains(k) && p(self@[k]) {
                    let j = place(all, k);
                    assert(is_at(all, k, j));
                }
            }
        }
        out
    }
}

/// A map has as many entries as keys.
pub proof fn count_is_size<V>(m: StrMap<V>)
    requires
        m.wf(),
    ensures
        m@.dom().finite(),
        m@.dom().len() == m.count(),
{
    let keys = m.entries@.map_values(|e: (String, V)| e.0@);
    assert(keys.no_duplicates()) by {
        assert forall|i: int, j: int| 0 <= i < keys.len() && 0 <= j < keys.len() && i != j implies keys[i]
            != keys[j] by {
            if i < j {
                assert(m.entries@[i].0@ != m.entries@[j].0@);
            } else {
                assert(m.entries@[j].0@ != m.entries@[i].0@);
            }
        }
    }
    keys.unique_seq_to_set();
    assert(m@.dom() =~= keys.to_set()) by {
        assert forall|k: Seq<char>| m@.dom().contains(k) <==> keys.to_set().contains(k) by {
            if m@.dom().contains(k) {
                let p = place(m.entries@, k);
                assert(is_at(m.entries@, k, p));
                assert(keys[p] == k);
            }
            if keys.to_set().contains(k) {
                let p = choose|p: int| 0 <= p < keys.len() && keys[p] == k;
                assert(is_at(m.entries@, k, p));
            }
        }
    }
    vstd::seq_lib::seq_to_set_is_finite(keys);
}

} // verus!
