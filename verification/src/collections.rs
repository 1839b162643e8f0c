//! Maps and sets keyed by strings, kept in insertion order.
use vstd::prelude::*;
use crate::text::str_eq;

verus! {

/// Some entry of `s` has the key `k`.
pub open spec fn has_key<V>(s: Seq<(String, V)>, k: Seq<char>) -> bool {
    exists|i: int| 0 <= i < s.len() && (#[trigger] s[i]).0@ == k
}

/// The position of the entry with the key `k`.
pub open spec fn key_index<V>(s: Seq<(String, V)>, k: Seq<char>) -> int {
    choose|i: int| 0 <= i < s.len() && (#[trigger] s[i]).0@ == k
}

/// The value stored under the key `k`.
pub open spec fn lookup<V>(s: Seq<(String, V)>, k: Seq<char>) -> Option<V> {
    if has_key(s, k) {
        Some(s[key_index(s, k)].1)
    } else {
        None
    }
}

/// No two entries have the same key.
pub open spec fn unique_keys<V>(s: Seq<(String, V)>) -> bool {
    forall|i: int, j: int| 0 <= i < j < s.len() ==> (#[trigger] s[i]).0@ != (#[trigger] s[j]).0@
}

/// A map from strings to values: no key occurs twice, and a key keeps its
/// place until it is removed.
#[derive(Debug)]
pub struct StringMap<V> {
    pub entries: Vec<(String, V)>,
}

impl<V> View for StringMap<V> {
    type V = Seq<(String, V)>;

    open spec fn view(&self) -> Seq<(String, V)> {
        self.entries@
    }
}

/// Where keys are unique, the entry at `i` is the one found under its key.
pub proof fn lemma_lookup_at<V>(s: Seq<(String, V)>, i: int)
    requires
        unique_keys(s),
        0 <= i < s.len(),
    ensures
        has_key(s, s[i].0@),
        key_index(s, s[i].0@) == i,
        lookup(s, s[i].0@) == Some(s[i].1),
{
    let k = s[i].0@;
    let j = key_index(s, k);
    assert(s[i].0@ == k);
    assert(s[j].0@ == k);
}

impl<V> StringMap<V> {
    /// No key occurs twice.
    pub open spec fn wf(&self) -> bool {
        unique_keys(self@)
    }

    /// The value stored under a key.
    pub open spec fn at(&self, k: Seq<char>) -> Option<V> {
        lookup(self@, k)
    }

    /// A map without entries.
    pub fn new() -> (r: Self)
        ensures
            r.wf(),
            r@ == Seq::<(String, V)>::empty(),
            forall|k: Seq<char>| r.at(k) is None,
    {
        StringMap { entries: Vec::new() }
    }

    /// How many entries there are.
    pub fn len(&self) -> (n: usize)
        ensures
            n == self@.len(),
    {
        self.entries.len()
    }

    /// Where the entry with the key `k` stands.
    pub fn position(&self, k: &str) -> (r: Option<usize>)
        ensures
            match r {
                Some(i) => i < self@.len() && self@[i as int].0@ == k@ && has_key(self@, k@) && (
                self.wf() ==> key_index(self@, k@) == i),
                None => !has_key(self@, k@),
            },
    {
        let mut i: usize = 0;
        while i < self.entries.len()
            invariant
                i <= self@.len(),
                forall|j: int| 0 <= j < i ==> (#[trigger] self@[j]).0@ != k@,
            decreases self@.len() - i,
        {
            if str_eq(self.entries[i].0.as_str(), k) {
                proof {
                    if self.wf() {
                        lemma_lookup_at(self@, i as int);
                    }
                }
                return Some(i);
            }
            i += 1;
        }
        None
    }

    /// Whether there is an entry with the key `k`.
    pub fn contains_key(&self, k: &str) -> (r: bool)
        ensures
            r == has_key(self@, k@),
    {
        self.position(k).is_some()
    }

    /// The value stored under the key `k`.
    pub fn get(&self, k: &str) -> (r: Option<&V>)
        requires
            self.wf(),
        ensures
            match r {
                Some(v) => self.at(k@) == Some(*v),
                None => self.at(k@) is None,
            },
    {
        match self.position(k) {
            Some(i) => Some(&self.entries[i].1),
            None => None,
        }
    }

    /// Store `v` under `k`, in place of what was there.
    pub fn insert(&mut self, k: String, v: V)
        requires
            old(self).wf(),
        ensures
            final(self).wf(),
            forall|x: Seq<char>|
                #[trigger] final(self).at(x) == if x == k@ {
                    Some(v)
                } else {
                    old(self).at(x)
                },
            !has_key(old(self)@, k@) ==> final(self)@ == old(self)@.push((k, v)),
            has_key(old(self)@, k@) ==> final(self)@ == old(self)@.update(
                key_index(old(self)@, k@),
                (k, v),
            ),
    {
        let ghost before = self@;
        match self.position(k.as_str()) {
            Some(i) => {
                self.entries.set(i, (k, v));
                let ghost after = self@;
                assert(unique_keys(after)) by {
                    assert forall|a: int, b: int| 0 <= a < b < after.len() implies (
                    #[trigger] after[a]).0@ != (#[trigger] after[b]).0@ by {
                        assert(before[a].0@ != before[b].0@);
                    }
                }
                proof {
                    assert forall|x: Seq<char>| #[trigger]
                        lookup(after, x) == if x == k@ {
                            Some(v)
                        } else {
                            lookup(before, x)
                        } by {
                        if x == k@ {
                            lemma_lookup_at(after, i as int);
                        } else if has_key(before, x) {
                            let j = key_index(before, x);
                            assert(before[j].0@ == x);
                            assert(j != i);
                            lemma_lookup_at(after, j);
                        } else if has_key(after, x) {
                            let j = key_index(after, x);
                            assert(after[j].0@ == x);
                            assert(j != i);
                            assert(before[j].0@ == x);
                        }
                    }
                }
            },
            None => {
                self.entries.push((k, v));
                let ghost after = self@;
                assert(unique_keys(after)) by {
                    assert forall|a: int, b: int| 0 <= a < b < after.len() implies (
                    #[trigger] after[a]).0@ != (#[trigger] after[b]).0@ by {
                        if b < before.len() {
                            assert(before[a].0@ != before[b].0@);
                        } else {
                            assert(before[a].0@ != k@);
                        }
                    }
                }
                proof {
                    assert forall|x: Seq<char>| #[trigger]
                        lookup(after, x) == if x == k@ {
                            Some(v)
                        } else {
                            lookup(before, x)
                        } by {
                        if x == k@ {
                            lemma_lookup_at(after, before.len() as int);
                        } else if has_key(before, x) {
                            let j = key_index(before, x);
                            assert(before[j].0@ == x);
                            assert(after[j].0@ == x);
                            lemma_lookup_at(after, j);
                        } else if has_key(after, x) {
                            let j = key_index(after, x);
                            assert(after[j].0@ == x);
                            assert(before[j].0@ == x);
                        }
                    }
                }
            },
        }
    }

    /// Remove the entry with the key `k` and hand out its value.
    pub fn remove(&mut self, k: &str) -> (r: Option<V>)
        requires
            old(self).wf(),
        ensures
            final(self).wf(),
            r == old(self).at(k@),
            forall|x: Seq<char>|
                #[trigger] final(self).at(x) == if x == k@ {
                    None
                } else {
                    old(self).at(x)
                },
            !has_key(old(self)@, k@) ==> final(self)@ == old(self)@,
            has_key(old(self)@, k@) ==> final(self)@ == old(self)@.remove(
                key_index(old(self)@, k@),
            ),
    {
        let ghost before = self@;
        match self.position(k) {
            Some(i) => {
                let e = self.entries.remove(i);
                let ghost after = self@;
                proof {
                    lemma_remove(before, i as int);
                    lemma_lookup_at(before, i as int);
                }
                Some(e.1)
            },
            None => None,
        }
    }
}

/// Removing the entry at `i` removes what is found under its key and nothing else.
pub proof fn lemma_remove<V>(s: Seq<(String, V)>, i: int)
    requires
        unique_keys(s),
        0 <= i < s.len(),
    ensures
        unique_keys(s.remove(i)),
        forall|x: Seq<char>|
            #[trigger] lookup(s.remove(i), x) == if x == s[i].0@ {
                None
            } else {
                lookup(s, x)
            },
{
    let t = s.remove(i);
    assert forall|a: int, b: int| 0 <= a < b < t.len() implies (#[trigger] t[a]).0@ != (
    #[trigger] t[b]).0@ by {
        let a2 = if a < i { a } else { a + 1 };
        let b2 = if b < i { b } else { b + 1 };
        assert(s[a2].0@ != s[b2].0@);
    }
    assert forall|x: Seq<char>| #[trigger]
        lookup(t, x) == if x == s[i].0@ {
            None
        } else {
            lookup(s, x)
        } by {
        if has_key(t, x) {
            let j = key_index(t, x);
            assert(t[j].0@ == x);
            let j2 = if j < i { j } else { j + 1 };
            assert(s[j2].0@ == x);
            lemma_lookup_at(s, j2);
            lemma_lookup_at(t, j);
        }
        if x != s[i].0@ && has_key(s, x) {
            let j = key_index(s, x);
            assert(s[j].0@ == x);
            let j2 = if j < i { j } else { j - 1 };
            assert(t[j2].0@ == x);
            lemma_lookup_at(t, j2);
            lemma_lookup_at(s, j);
        }
    }
}

impl<V: DeepView> DeepView for StringMap<V> {
    type V = Seq<(Seq<char>, V::V)>;

    open spec fn deep_view(&self) -> Seq<(Seq<char>, V::V)> {
        Seq::new(self@.len(), |i: int| (self@[i].0@, self@[i].1.deep_view()))
    }
}

impl<V: Clone> Clone for StringMap<V> {
    fn clone(&self) -> (r: Self)
        ensures
            r@.len() == self@.len(),
            forall|i: int| #![trigger r@[i]]
                0 <= i < self@.len() ==> r@[i].0 == self@[i].0 && cloned(self@[i].1, r@[i].1),
            self.wf() ==> r.wf(),
    {
        let mut entries: Vec<(String, V)> = Vec::new();
        let mut i: usize = 0;
        while i < self.entries.len()
            invariant
                i <= self@.len(),
                entries@.len() == i,
                forall|k: int| #![trigger entries@[k]]
                    0 <= k < i ==> entries@[k].0 == self@[k].0 && cloned(
                        self@[k].1,
                        entries@[k].1,
                    ),
            decreases self@.len() - i,
        {
            let e = (self.entries[i].0.clone(), self.entries[i].1.clone());
            entries.push(e);
            i += 1;
        }
        let r = StringMap { entries };
        proof {
            if self.wf() {
                assert forall|a: int, b: int| 0 <= a < b < r@.len() implies (#[trigger] r@[a]).0@ != (
                #[trigger] r@[b]).0@ by {
                    assert(self@[a].0@ != self@[b].0@);
                }
            }
        }
        r
    }
}

/// Some entry has the key `k`.
pub open spec fn has_name<T>(m: Seq<(Seq<char>, T)>, k: Seq<char>) -> bool {
    exists|i: int| 0 <= i < m.len() && (#[trigger] m[i]).0 == k
}

/// The position of the entry with the key `k`.
pub open spec fn name_index<T>(m: Seq<(Seq<char>, T)>, k: Seq<char>) -> int {
    choose|i: int| 0 <= i < m.len() && (#[trigger] m[i]).0 == k
}

/// The entries with `v` under `k`, in place of what was there.
pub open spec fn put<T>(m: Seq<(Seq<char>, T)>, k: Seq<char>, v: T) -> Seq<(Seq<char>, T)> {
    if has_name(m, k) {
        m.update(name_index(m, k), (k, v))
    } else {
        m.push((k, v))
    }
}

impl StringMap<String> {
    /// Store `v` under `k`, in place of what was there.
    pub fn store(&mut self, k: String, v: String)
        requires
            old(self).wf(),
        ensures
            final(self).wf(),
            final(self).deep_view() == put(old(self).deep_view(), k@, v@),
    {
        let ghost before = self@;
        let ghost shown = self.deep_view();
        self.insert(k, v);
        proof {
            let want = put(shown, k@, v@);
            if has_key(before, k@) {
                let i = key_index(before, k@);
                assert(shown[i].0 == k@);
                let j = name_index(shown, k@);
                assert(shown[j].0 == k@);
                assert(before[i].0@ == before[j].0@);
                assert(i == j);
                assert(self.deep_view() =~= want);
            } else {
                assert(!has_name(shown, k@)) by {
                    if has_name(shown, k@) {
                        let j = choose|j: int| 0 <= j < shown.len() && (#[trigger] shown[j]).0 == k@;
                        assert(before[j].0@ == k@);
                    }
                }
                assert(self.deep_view() =~= want);
            }
        }
    }
}

/// Some string of `s` reads `k`.
pub open spec fn has_item(s: Seq<String>, k: Seq<char>) -> bool {
    exists|i: int| 0 <= i < s.len() && (#[trigger] s[i])@ == k
}

/// No two strings of `s` read the same.
pub open spec fn unique_items(s: Seq<String>) -> bool {
    forall|i: int, j: int| 0 <= i < j < s.len() ==> (#[trigger] s[i])@ != (#[trigger] s[j])@
}

/// A set of strings, in the order in which they came.
#[derive(Debug)]
pub struct StringSet {
    pub items: Vec<String>,
}

impl View for StringSet {
    type V = Seq<String>;

    open spec fn view(&self) -> Seq<String> {
        self.items@
    }
}

impl StringSet {
    /// No string occurs twice.
    pub open spec fn wf(&self) -> bool {
        unique_items(self@)
    }

    /// The strings of the set.
    pub open spec fn elems(&self) -> Set<Seq<char>> {
        Set::new(|k: Seq<char>| has_item(self@, k))
    }

    /// The empty set.
    pub fn new() -> (r: Self)
        ensures
            r.wf(),
            r@ == Seq::<String>::empty(),
            r.elems() == Set::<Seq<char>>::empty(),
    {
        let r = StringSet { items: Vec::new() };
        assert(r.elems() =~= Set::<Seq<char>>::empty());
        r
    }

    /// How many strings there are.
    pub fn len(&self) -> (n: usize)
        ensures
            n == self@.len(),
    {
        self.items.len()
    }

    /// Whether the set is empty.
    pub fn is_empty(&self) -> (r: bool)
        ensures
            r == (self@.len() == 0),
            r == (self.elems() == Set::<Seq<char>>::empty()),
    {
        proof {
            if self@.len() > 0 {
                assert(has_item(self@, self@[0]@));
                assert(self.elems().contains(self@[0]@));
            } else {
                assert(self.elems() =~= Set::<Seq<char>>::empty());
            }
        }
        self.items.len() == 0
    }

    /// Whether the set holds `k`.
    pub fn contains(&self, k: &str) -> (r: bool)
        ensures
            r == has_item(self@, k@),
            r == self.elems().contains(k@),
    {
        let mut i: usize = 0;
        while i < self.items.len()
            invariant
                i <= self@.len(),
                forall|j: int| 0 <= j < i ==> (#[trigger] self@[j])@ != k@,
            decreases self@.len() - i,
        {
            if str_eq(self.items[i].as_str(), k) {
                return true;
            }
            i += 1;
        }
        false
    }

    /// Put `k` into the set; whether it was not there before.
    pub fn insert(&mut self, k: String) -> (r: bool)
        requires
            old(self).wf(),
        ensures
            final(self).wf(),
            r == !has_item(old(self)@, k@),
            final(self)@ == if has_item(old(self)@, k@) {
                old(self)@
            } else {
                old(self)@.push(k)
            },
            final(self).elems() == old(self).elems().insert(k@),
    {
        let ghost before = self@;
        let ghost elems = self.elems();
        if self.contains(k.as_str()) {
            assert(self.elems() =~= elems.insert(k@));
            return false;
        }
        self.items.push(k);
        let ghost after = self@;
        assert forall|x: Seq<char>| has_item(after, x) == (x == k@ || has_item(before, x)) by {
            if has_item(before, x) {
                let i = choose|i: int| 0 <= i < before.len() && (#[trigger] before[i])@ == x;
                assert(after[i]@ == x);
            }
            if x == k@ {
                assert(after[before.len() as int]@ == x);
            }
            if has_item(after, x) && x != k@ {
                let i = choose|i: int| 0 <= i < after.len() && (#[trigger] after[i])@ == x;
                assert(before[i]@ == x);
            }
        }
        assert(self.elems() =~= elems.insert(k@));
        assert forall|a: int, b: int| 0 <= a < b < after.len() implies (#[trigger] after[a])@ != (
        #[trigger] after[b])@ by {
            if b < before.len() {
                assert(before[a]@ != before[b]@);
            } else {
                assert(before[a]@ != k@);
            }
        }
        true
    }
}

impl Clone for StringSet {
    fn clone(&self) -> (r: Self)
        ensures
            r@ == self@,
    {
        let items = self.items.clone();
        assert(items@ =~= self@);
        StringSet { items }
    }
}

/// Storing under a key leaves the entries under other keys as they are and in their
/// places, and adds a place only where the key is new.
pub proof fn law_put_stores<T>(m: Seq<(Seq<char>, T)>, k: Seq<char>, v: T)
    ensures
        exists|j: int| 0 <= j < put(m, k, v).len() && #[trigger] put(m, k, v)[j] == (k, v),
        (exists|i: int| 0 <= i < m.len() && (#[trigger] m[i]).0 == k) ==> put(m, k, v).len()
            == m.len(),
        (forall|i: int| 0 <= i < m.len() ==> (#[trigger] m[i]).0 != k) ==> put(m, k, v) == m + seq![
            (k, v),
        ],
        forall|i: int|
            0 <= i < m.len() ==> (#[trigger] put(m, k, v)[i]).0 == m[i].0 && (m[i].0 != k ==> put(
                m,
                k,
                v,
            )[i] == m[i]),
        forall|i: int|
            0 <= i < put(m, k, v).len() ==> #[trigger] put(m, k, v)[i] == (k, v) || (i < m.len()
                && put(m, k, v)[i] == m[i]),
{
    if has_name(m, k) {
        let j = name_index(m, k);
        assert(put(m, k, v)[j] == (k, v));
    } else {
        assert(put(m, k, v)[m.len() as int] == (k, v));
        assert(put(m, k, v) =~= m + seq![(k, v)]);
    }
}

} // verus!
