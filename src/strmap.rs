//! An insertion-ordered map keyed by text, with unique keys.

use vstd::prelude::*;
use crate::text::same_text;
use crate::naming::{is_under, under};

verus! {

/// No key occurs twice.
pub open spec fn unique_keys<K, W>(s: Seq<(K, W)>) -> bool {
    forall|i: int, j: int| 0 <= i < j < s.len() ==> s[i].0 != s[j].0
}

/// Some entry has key `k`.
pub open spec fn has_key<K, W>(s: Seq<(K, W)>, k: K) -> bool {
    exists|i: int| 0 <= i < s.len() && s[i].0 == k
}

/// The position of key `k`, where it occurs.
pub open spec fn key_index<K, W>(s: Seq<(K, W)>, k: K) -> int {
    choose|i: int| 0 <= i < s.len() && s[i].0 == k
}

/// The entries read as a map; a later entry wins over an earlier one.
pub open spec fn to_map<K, W>(s: Seq<(K, W)>) -> Map<K, W>
    decreases s.len(),
{
    if s.len() == 0 {
        Map::empty()
    } else {
        to_map(s.drop_last()).insert(s.last().0, s.last().1)
    }
}

/// The entries after setting key `k` to `v`: replaced where it occurs,
/// appended at the end otherwise.
pub open spec fn pairs_insert<K, W>(s: Seq<(K, W)>, k: K, v: W) -> Seq<(K, W)> {
    if has_key(s, k) {
        s.update(key_index(s, k), (k, v))
    } else {
        s.push((k, v))
    }
}

/// The entries without key `k`.
pub open spec fn pairs_remove<K, W>(s: Seq<(K, W)>, k: K) -> Seq<(K, W)> {
    if has_key(s, k) {
        s.remove(key_index(s, k))
    } else {
        s
    }
}

pub proof fn lemma_to_map_domain<K, W>(s: Seq<(K, W)>, k: K)
    ensures
        to_map(s).contains_key(k) <==> has_key(s, k),
    decreases s.len(),
{
    if s.len() > 0 {
        lemma_to_map_domain(s.drop_last(), k);
        if has_key(s.drop_last(), k) {
            let i = choose|i: int| 0 <= i < s.drop_last().len() && s.drop_last()[i].0 == k;
            assert(s[i].0 == k);
        }
        if has_key(s, k) && s.last().0 != k {
            let i = choose|i: int| 0 <= i < s.len() && s[i].0 == k;
            assert(s.drop_last()[i].0 == k);
        }
    }
}

pub proof fn lemma_to_map_value<K, W>(s: Seq<(K, W)>, i: int)
    requires
        unique_keys(s),
        0 <= i < s.len(),
    ensures
        to_map(s).contains_key(s[i].0),
        to_map(s)[s[i].0] == s[i].1,
    decreases s.len(),
{
    if i < s.len() - 1 {
        lemma_to_map_value(s.drop_last(), i);
    }
}

pub proof fn lemma_to_map_update<K, W>(s: Seq<(K, W)>, i: int, v: W)
    requires
        unique_keys(s),
        0 <= i < s.len(),
    ensures
        to_map(s.update(i, (s[i].0, v))) == to_map(s).insert(s[i].0, v),
    decreases s.len(),
{
    let t = s.update(i, (s[i].0, v));
    if i == s.len() - 1 {
        assert(t.drop_last() =~= s.drop_last());
        assert(to_map(t) =~= to_map(s).insert(s[i].0, v));
    } else {
        assert(t.drop_last() =~= s.drop_last().update(i, (s[i].0, v)));
        lemma_to_map_update(s.drop_last(), i, v);
        assert(to_map(t) =~= to_map(s).insert(s[i].0, v));
    }
}

pub proof fn lemma_to_map_remove<K, W>(s: Seq<(K, W)>, i: int)
    requires
        unique_keys(s),
        0 <= i < s.len(),
    ensures
        to_map(s.remove(i)) == to_map(s).remove(s[i].0),
    decreases s.len(),
{
    let t = s.remove(i);
    if i == s.len() - 1 {
        assert(t =~= s.drop_last());
        lemma_to_map_domain(s.drop_last(), s[i].0);
        assert(to_map(t) =~= to_map(s).remove(s[i].0));
    } else {
        assert(t.drop_last() =~= s.drop_last().remove(i));
        lemma_to_map_remove(s.drop_last(), i);
        assert(t.last() == s.last());
        assert(to_map(t) =~= to_map(s).remove(s[i].0));
    }
}

pub proof fn lemma_to_map_insert_at<K, W>(s: Seq<(K, W)>, i: int, e: (K, W))
    requires
        !has_key(s, e.0),
        0 <= i <= s.len(),
    ensures
        to_map(s.insert(i, e)) == to_map(s).insert(e.0, e.1),
    decreases s.len(),
{
    let t = s.insert(i, e);
    if i == s.len() {
        assert(t.drop_last() =~= s);
    } else {
        assert(t.drop_last() =~= s.drop_last().insert(i, e));
        if has_key(s.drop_last(), e.0) {
            let j = choose|j: int| 0 <= j < s.drop_last().len() && s.drop_last()[j].0 == e.0;
            assert(s[j].0 == e.0);
        }
        lemma_to_map_insert_at(s.drop_last(), i, e);
        assert(t.last() == s.last());
        assert(s.last().0 != e.0);
        assert(to_map(t) =~= to_map(s).insert(e.0, e.1));
    }
}

/// The entries whose keys are not `x` and do not lie beneath it.
pub open spec fn pairs_outside<W>(s: Seq<(Seq<char>, W)>, x: Seq<char>) -> Seq<(Seq<char>, W)> {
    s.filter(outside_of(x))
}

/// Whether an entry's key is neither `x` nor beneath it.
pub open spec fn outside_of<W>(x: Seq<char>) -> spec_fn((Seq<char>, W)) -> bool {
    |e: (Seq<char>, W)| !is_under(e.0, x)
}

/// The map without the keys that are `x` or lie beneath it.
pub open spec fn map_outside<W>(m: Map<Seq<char>, W>, x: Seq<char>) -> Map<Seq<char>, W> {
    Map::new(|k: Seq<char>| m.contains_key(k) && !is_under(k, x), |k: Seq<char>| m[k])
}

pub proof fn lemma_to_map_outside<W>(s: Seq<(Seq<char>, W)>, x: Seq<char>)
    ensures
        to_map(pairs_outside(s, x)) == map_outside(to_map(s), x),
    decreases s.len(),
{
    reveal(Seq::filter);
    if s.len() == 0 {
        assert(to_map(pairs_outside(s, x)) =~= map_outside(to_map(s), x));
    } else {
        lemma_to_map_outside(s.drop_last(), x);
        let p = outside_of::<W>(x);
        let f = s.filter(p);
        let f0 = s.drop_last().filter(p);
        if p(s.last()) {
            assert(f == f0.push(s.last()));
            assert(f.drop_last() =~= f0);
            assert(to_map(f) == to_map(f0).insert(s.last().0, s.last().1));
        } else {
            assert(f == f0);
        }
        assert(to_map(pairs_outside(s, x)) =~= map_outside(to_map(s), x));
    }
}

/// Adding one more entry on the right of a union.
pub proof fn lemma_union_push<W>(m: Map<Seq<char>, W>, s: Seq<(Seq<char>, W)>, e: (Seq<char>, W))
    ensures
        m.union_prefer_right(to_map(s.push(e))) == m.union_prefer_right(to_map(s)).insert(e.0, e.1),
{
    assert(s.push(e).drop_last() =~= s);
    assert(m.union_prefer_right(to_map(s.push(e))) =~= m.union_prefer_right(to_map(s)).insert(e.0, e.1));
}

/// The map restricted to the keys that are `x` or lie beneath it.
pub open spec fn map_inside<W>(m: Map<Seq<char>, W>, x: Seq<char>) -> Map<Seq<char>, W> {
    Map::new(|k: Seq<char>| m.contains_key(k) && is_under(k, x), |k: Seq<char>| m[k])
}

/// One step of a filter over a growing prefix.
pub proof fn lemma_filter_take<A>(s: Seq<A>, p: spec_fn(A) -> bool, i: int)
    requires
        0 <= i < s.len(),
    ensures
        s.take(i + 1).filter(p) == (if p(s[i]) {
            s.take(i).filter(p).push(s[i])
        } else {
            s.take(i).filter(p)
        }),
{
    reveal(Seq::filter);
    assert(s.take(i + 1).drop_last() =~= s.take(i));
}

/// The views of a list of entries.
pub open spec fn entry_views<V: View>(v: Seq<(String, V)>) -> Seq<(Seq<char>, V::V)> {
    v.map_values(|e: (String, V)| (e.0@, e.1@))
}

/// An insertion-ordered map from text keys to values.
pub struct StrMap<V> {
    pub(crate) entries: Vec<(String, V)>,
}

impl<V: View> View for StrMap<V> {
    type V = Map<Seq<char>, V::V>;

    open spec fn view(&self) -> Map<Seq<char>, V::V> {
        to_map(self.pairs())
    }
}

impl<V: View> StrMap<V> {
    /// The entries in insertion order, as views.
    pub closed spec fn pairs(&self) -> Seq<(Seq<char>, V::V)> {
        entry_views(self.entries@)
    }

    pub open spec fn wf(&self) -> bool {
        unique_keys(self.pairs())
    }

    pub fn new() -> (r: Self)
        ensures
            r.wf(),
            r.pairs() == Seq::<(Seq<char>, V::V)>::empty(),
    {
        let r = StrMap { entries: Vec::new() };
        proof {
            assert(r.pairs() =~= Seq::<(Seq<char>, V::V)>::empty());
        }
        r
    }

    pub fn len(&self) -> (r: usize)
        ensures
            r == self.pairs().len(),
    {
        self.entries.len()
    }

    /// The key at position `i`.
    pub fn key_at(&self, i: usize) -> (r: &String)
        requires
            i < self.pairs().len(),
        ensures
            r@ == self.pairs()[i as int].0,
    {
        &self.entries[i].0
    }

    /// The value at position `i`.
    pub fn value_at(&self, i: usize) -> (r: &V)
        requires
            i < self.pairs().len(),
        ensures
            r@ == self.pairs()[i as int].1,
    {
        &self.entries[i].1
    }

    /// The position of `key`, if present.
    pub fn index_of(&self, key: &str) -> (r: Option<usize>)
        requires
            self.wf(),
        ensures
            match r {
                Some(i) => i < self.pairs().len() && self.pairs()[i as int].0 == key@
                    && key_index(self.pairs(), key@) == i
                    && self@.contains_key(key@)
                    && self@[key@] == self.pairs()[i as int].1,
                None => !has_key(self.pairs(), key@) && !self@.contains_key(key@),
            },
    {
        let mut i: usize = 0;
        while i < self.entries.len()
            invariant
                0 <= i <= self.entries.len(),
                self.wf(),
                forall|j: int| 0 <= j < i ==> self.pairs()[j].0 != key@,
            decreases self.entries.len() - i,
        {
            if same_text(self.entries[i].0.as_str(), key) {
                proof {
                    assert(self.pairs()[i as int].0 == key@);
                    lemma_to_map_value(self.pairs(), i as int);
                    assert(has_key(self.pairs(), key@));
                    let k = key_index(self.pairs(), key@);
                    assert(self.pairs()[k].0 == key@);
                }
                return Some(i);
            }
            proof {
                assert(self.pairs()[i as int].0 != key@);
            }
            i = i + 1;
        }
        proof {
            lemma_to_map_domain(self.pairs(), key@);
        }
        None
    }

    pub fn contains_key(&self, key: &str) -> (r: bool)
        requires
            self.wf(),
        ensures
            r == self@.contains_key(key@),
    {
        self.index_of(key).is_some()
    }

    pub fn get(&self, key: &str) -> (r: Option<&V>)
        requires
            self.wf(),
        ensures
            match r {
                Some(v) => self@.contains_key(key@) && self@[key@] == v@,
                None => !self@.contains_key(key@),
            },
    {
        match self.index_of(key) {
            Some(i) => Some(&self.entries[i].1),
            None => None,
        }
    }

    /// Sets `key` to `value`, in place where the key is present and at the
    /// end otherwise.
    pub fn insert(&mut self, key: String, value: V)
        requires
            old(self).wf(),
        ensures
            final(self).wf(),
            final(self).pairs() == pairs_insert(old(self).pairs(), key@, value@),
            final(self)@ == old(self)@.insert(key@, value@),
    {
        let ghost s = self.pairs();
        match self.index_of(key.as_str()) {
            Some(i) => {
                let _ = self.entries.remove(i);
                self.entries.insert(i, (key, value));
                proof {
                    assert(self.pairs() =~= s.update(i as int, (key@, value@)));
                    lemma_to_map_update(s, i as int, value@);
                }
            },
            None => {
                self.entries.push((key, value));
                proof {
                    assert(self.pairs() =~= s.push((key@, value@)));
                    assert(self.pairs().drop_last() =~= s);
                }
            },
        }
    }

    /// Removes `key`, handing back its value where it was present.
    pub fn remove(&mut self, key: &str) -> (r: Option<V>)
        requires
            old(self).wf(),
        ensures
            final(self).wf(),
            final(self).pairs() == pairs_remove(old(self).pairs(), key@),
            final(self)@ == old(self)@.remove(key@),
            match r {
                Some(v) => old(self)@.contains_key(key@) && old(self)@[key@] == v@,
                None => !old(self)@.contains_key(key@),
            },
    {
        let ghost s = self.pairs();
        match self.index_of(key) {
            Some(i) => {
                let (_, v) = self.entries.remove(i);
                proof {
                    assert(self.pairs() =~= s.remove(i as int));
                    lemma_to_map_remove(s, i as int);
                }
                Some(v)
            },
            None => {
                proof {
                    assert(to_map(s) =~= to_map(s).remove(key@));
                }
                None
            },
        }
    }

    /// Removes every entry whose key is `x` or lies beneath it, keeping the
    /// order of the others.
    pub fn remove_under(&mut self, x: &str)
        requires
            old(self).wf(),
        ensures
            final(self).wf(),
            final(self).pairs() == pairs_outside(old(self).pairs(), x@),
            final(self)@ == map_outside(old(self)@, x@),
    {
        let ghost orig = self.pairs();
        let mut rest: Vec<(String, V)> = Vec::new();
        std::mem::swap(&mut self.entries, &mut rest);
        let ghost n = rest@.len();
        proof {
            assert(self.pairs() =~= orig.take(0).filter(outside_of::<V::V>(x@)));
        }
        while rest.len() > 0
            invariant
                n == orig.len(),
                rest@.len() <= n,
                entry_views(rest@) =~= orig.skip(n - rest@.len()),
                self.pairs() == orig.take(n - rest@.len()).filter(outside_of::<V::V>(x@)),
                unique_keys(orig),
                unique_keys(self.pairs()),
                forall|j: int| 0 <= j < self.pairs().len() ==> exists|k: int|
                    0 <= k < n - rest@.len() && #[trigger] self.pairs()[j].0 == orig[k].0,
            decreases rest@.len(),
        {
            let ghost k = n - rest@.len();
            let ghost before = self.pairs();
            let ghost rest_before = rest@;
            let e = rest.remove(0);
            proof {
                assert(orig.skip(k)[0] == (e.0@, e.1@));
                assert(orig[k] == (e.0@, e.1@));
                assert forall|i: int| 0 <= i < rest@.len() implies #[trigger] entry_views(rest@)[i] == orig.skip(k + 1)[i] by {
                    assert(rest@[i] == rest_before[i + 1]);
                    assert(entry_views(rest_before)[i + 1] == orig.skip(
                        k,
                    )[i + 1]);
                }
                assert(entry_views(rest@) =~= orig.skip(k + 1));
                lemma_filter_take(orig, outside_of::<V::V>(x@), k);
                assert(outside_of::<V::V>(x@)(orig[k]) == !is_under(e.0@, x@));
            }
            if !under(e.0.as_str(), x) {
                self.entries.push(e);
                proof {
                    assert(self.pairs() =~= before.push(orig[k]));
                    assert forall|a: int, b: int| 0 <= a < b < self.pairs().len() implies
                        self.pairs()[a].0 != self.pairs()[b].0 by {
                        if b == self.pairs().len() - 1 {
                            let kk = choose|kk: int| 0 <= kk < k && #[trigger] before[a].0
                                == orig[kk].0;
                            assert(orig[kk].0 != orig[k].0);
                        } else {
                            assert(before[a].0 != before[b].0);
                        }
                    }
                    assert forall|j: int| 0 <= j < self.pairs().len() implies exists|kk: int|
                        0 <= kk < k + 1 && #[trigger] self.pairs()[j].0 == orig[kk].0 by {
                        if j == self.pairs().len() - 1 {
                            assert(self.pairs()[j].0 == orig[k].0);
                        } else {
                            let kk = choose|kk: int| 0 <= kk < k && #[trigger] before[j].0
                                == orig[kk].0;
                            assert(self.pairs()[j].0 == orig[kk].0);
                        }
                    }
                }
            } else {
                proof {
                    assert forall|j: int| 0 <= j < self.pairs().len() implies exists|kk: int|
                        0 <= kk < k + 1 && #[trigger] self.pairs()[j].0 == orig[kk].0 by {
                        let kk = choose|kk: int| 0 <= kk < k && #[trigger] before[j].0
                            == orig[kk].0;
                        assert(self.pairs()[j].0 == orig[kk].0);
                    }
                }
            }
        }
        proof {
            assert(orig.take(n as int) =~= orig);
            lemma_to_map_outside(orig, x@);
        }
    }

    /// Whether no key occurs twice.
    pub fn has_unique_keys(&self) -> (r: bool)
        ensures
            r == self.wf(),
    {
        let n = self.entries.len();
        let mut i: usize = 0;
        while i < n
            invariant
                n == self.pairs().len(),
                0 <= i <= n,
                forall|a: int, b: int| 0 <= a < b < n && a < i ==> self.pairs()[a].0 != self.pairs()[b].0,
            decreases n - i,
        {
            let mut j: usize = i + 1;
            while j < n
                invariant
                    n == self.pairs().len(),
                    0 <= i < n,
                    i + 1 <= j <= n,
                    forall|a: int, b: int| 0 <= a < b < n && a < i ==> self.pairs()[a].0 != self.pairs()[b].0,
                    forall|b: int| i < b < j ==> self.pairs()[i as int].0 != self.pairs()[b].0,
                decreases n - j,
            {
                if same_text(self.entries[i].0.as_str(), self.entries[j].0.as_str()) {
                    proof {
                        assert(self.pairs()[i as int].0 == self.pairs()[j as int].0);
                    }
                    return false;
                }
                j = j + 1;
            }
            i = i + 1;
        }
        true
    }

    /// The entries in insertion order.
    pub fn entries(&self) -> (r: &Vec<(String, V)>)
        ensures
            entry_views(r@) == self.pairs(),
    {
        &self.entries
    }

    /// The entries in insertion order, taken out of the map.
    pub fn into_entries(self) -> (r: Vec<(String, V)>)
        ensures
            entry_views(r@) == self.pairs(),
    {
        self.entries
    }

    /// A map of the given entries, if no key occurs twice.
    pub fn from_entries(v: Vec<(String, V)>) -> (r: Option<Self>)
        ensures
            match r {
                Some(m) => m.wf() && m.pairs() == entry_views(v@),
                None => !unique_keys(entry_views(v@)),
            },
    {
        let ghost orig = entry_views(v@);
        let mut rest = v;
        let mut out: StrMap<V> = StrMap::new();
        let ghost n = orig.len();
        while rest.len() > 0
            invariant
                n == orig.len(),
                orig == entry_views(v@),
                rest@.len() <= n,
                entry_views(rest@) =~= orig.skip(n - rest@.len()),
                out.wf(),
                out.pairs() == orig.take(n - rest@.len()),
            decreases rest@.len(),
        {
            let ghost k = n - rest@.len();
            let ghost rb = rest@;
            let e = rest.remove(0);
            proof {
                assert(orig.skip(k)[0] == (e.0@, e.1@));
                assert forall|i: int| 0 <= i < rest@.len() implies #[trigger] entry_views(rest@)[i]
                    == orig.skip(k + 1)[i] by {
                    assert(rest@[i] == rb[i + 1]);
                    assert(entry_views(rb)[i + 1] == orig.skip(k)[i + 1]);
                }
            }
            match out.index_of(e.0.as_str()) {
                Some(j) => {
                    proof {
                        assert(out.pairs()[j as int] == orig.take(k)[j as int]);
                        assert(orig[j as int].0 == orig[k].0);
                        assert((j as int) < k);
                        assert(!unique_keys(orig));
                    }
                    return None;
                },
                None => {
                    let ghost before = out.pairs();
                    out.entries.push(e);
                    proof {
                        assert(out.pairs() =~= before.push(orig[k]));
                        assert(orig.take(k + 1) =~= orig.take(k).push(orig[k]));
                        assert forall|a: int, b: int| 0 <= a < b < out.pairs().len() implies
                            out.pairs()[a].0 != out.pairs()[b].0 by {
                            if b == out.pairs().len() - 1 {
                                assert(before[a].0 != orig[k].0);
                            }
                        }
                    }
                },
            }
        }
        proof {
            assert(orig.take(n as int) =~= orig);
        }
        Some(out)
    }

    /// Takes out the entry at position `i`.
    pub fn remove_at(&mut self, i: usize) -> (r: (String, V))
        requires
            old(self).wf(),
            i < old(self).pairs().len(),
        ensures
            final(self).wf(),
            final(self).pairs() == old(self).pairs().remove(i as int),
            final(self)@ == old(self)@.remove(old(self).pairs()[i as int].0),
            r.0@ == old(self).pairs()[i as int].0,
            r.1@ == old(self).pairs()[i as int].1,
    {
        let ghost s = self.pairs();
        let r = self.entries.remove(i);
        proof {
            assert(self.pairs() =~= s.remove(i as int));
            lemma_to_map_remove(s, i as int);
        }
        r
    }

    /// Puts an entry with a fresh key at position `i`.
    pub fn insert_at(&mut self, i: usize, key: String, value: V)
        requires
            old(self).wf(),
            i <= old(self).pairs().len(),
            !old(self)@.contains_key(key@),
        ensures
            final(self).wf(),
            final(self).pairs() == old(self).pairs().insert(i as int, (key@, value@)),
            final(self)@ == old(self)@.insert(key@, value@),
    {
        let ghost s = self.pairs();
        proof {
            lemma_to_map_domain(s, key@);
        }
        self.entries.insert(i, (key, value));
        proof {
            assert(self.pairs() =~= s.insert(i as int, (key@, value@)));
            lemma_to_map_insert_at(s, i as int, (key@, value@));
        }
    }
}

} // verus!
