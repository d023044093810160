//! A small map keyed by names, kept as a list of entries in insertion
//! order. Its meaning is the `Map` from key text to the deep view of the
//! value that the last entry with that key holds.
use vstd::prelude::*;

verus! {

pub struct StrEntry<V> {
    pub key: String,
    pub value: V,
}

pub struct StrMap<V> {
    pub entries: Vec<StrEntry<V>>,
}

/// The map that a list of entries denotes: later entries win.
pub open spec fn entries_map<V: DeepView>(s: Seq<StrEntry<V>>) -> Map<Seq<char>, V::V>
    decreases s.len(),
{
    if s.len() == 0 {
        Map::empty()
    } else {
        entries_map(s.drop_last()).insert(s.last().key@, s.last().value.deep_view())
    }
}

/// No key occurs in two entries.
pub open spec fn keys_unique<V>(s: Seq<StrEntry<V>>) -> bool {
    forall|i: int, j: int| 0 <= i < j < s.len() ==> s[i].key@ != s[j].key@
}

impl<V: DeepView> View for StrMap<V> {
    type V = Map<Seq<char>, V::V>;

    open spec fn view(&self) -> Map<Seq<char>, V::V> {
        entries_map(self.entries@)
    }
}

impl<V: DeepView> StrMap<V> {
    pub open spec fn wf(&self) -> bool {
        keys_unique(self.entries@)
    }
}

/// Entries after position `i` that do not hold `k` do not change what the
/// map says of `k`.
pub proof fn lemma_entries_map_skip<V: DeepView>(s: Seq<StrEntry<V>>, i: int, k: Seq<char>)
    requires
        0 <= i <= s.len(),
        forall|j: int| i <= j < s.len() ==> s[j].key@ != k,
    ensures
        entries_map(s).contains_key(k) == entries_map(s.take(i)).contains_key(k),
        entries_map(s).contains_key(k) ==> entries_map(s)[k] == entries_map(s.take(i))[k],
    decreases s.len() - i,
{
    if i == s.len() {
        assert(s.take(i) =~= s);
    } else {
        lemma_entries_map_skip(s.drop_last(), i, k);
        assert(s.drop_last().take(i) =~= s.take(i));
    }
}

/// A key is in the map exactly when some entry holds it.
pub proof fn lemma_entries_map_dom<V: DeepView>(s: Seq<StrEntry<V>>, k: Seq<char>)
    ensures
        entries_map(s).contains_key(k) <==> exists|j: int| 0 <= j < s.len() && s[j].key@ == k,
    decreases s.len(),
{
    if s.len() > 0 {
        lemma_entries_map_dom(s.drop_last(), k);
        if entries_map(s.drop_last()).contains_key(k) {
            let j = choose|j: int| 0 <= j < s.drop_last().len() && s.drop_last()[j].key@ == k;
            assert(s[j].key@ == k);
        }
        if exists|j: int| 0 <= j < s.len() && s[j].key@ == k {
            let j = choose|j: int| 0 <= j < s.len() && s[j].key@ == k;
            if j < s.len() - 1 {
                assert(s.drop_last()[j].key@ == k);
            }
        }
    }
}

/// The map's domain is finite.
pub proof fn lemma_entries_map_finite<V: DeepView>(s: Seq<StrEntry<V>>)
    ensures
        entries_map(s).dom().finite(),
    decreases s.len(),
{
    if s.len() > 0 {
        lemma_entries_map_finite(s.drop_last());
    }
}

/// With unique keys, the value an entry holds is the map's value of its key.
pub proof fn lemma_entries_map_at<V: DeepView>(s: Seq<StrEntry<V>>, j: int)
    requires
        keys_unique(s),
        0 <= j < s.len(),
    ensures
        entries_map(s).contains_key(s[j].key@),
        entries_map(s)[s[j].key@] == s[j].value.deep_view(),
{
    lemma_entries_map_skip(s, j + 1, s[j].key@);
    assert(s.take(j + 1).drop_last() =~= s.take(j));
}

/// Replacing the entry of a key replaces the map's value of that key.
pub proof fn lemma_entries_map_update<V: DeepView>(s: Seq<StrEntry<V>>, j: int, e: StrEntry<V>)
    requires
        keys_unique(s),
        0 <= j < s.len(),
        e.key@ == s[j].key@,
    ensures
        keys_unique(s.update(j, e)),
        entries_map(s.update(j, e)) == entries_map(s).insert(e.key@, e.value.deep_view()),
{
    let t = s.update(j, e);
    assert(keys_unique(t));
    let m1 = entries_map(t);
    let m2 = entries_map(s).insert(e.key@, e.value.deep_view());
    assert forall|k: Seq<char>| #[trigger] m1.contains_key(k) == m2.contains_key(k) by {
        lemma_entries_map_dom(t, k);
        lemma_entries_map_dom(s, k);
        if exists|i: int| 0 <= i < s.len() && s[i].key@ == k {
            let i = choose|i: int| 0 <= i < s.len() && s[i].key@ == k;
            assert(t[i].key@ == k);
        }
        if exists|i: int| 0 <= i < t.len() && t[i].key@ == k {
            let i = choose|i: int| 0 <= i < t.len() && t[i].key@ == k;
            if i != j {
                assert(s[i].key@ == k);
            }
        }
    }
    assert forall|k: Seq<char>| m1.contains_key(k) implies #[trigger] m1[k] == m2[k] by {
        lemma_entries_map_dom(t, k);
        let i = choose|i: int| 0 <= i < t.len() && t[i].key@ == k;
        lemma_entries_map_at(t, i);
        if i != j {
            lemma_entries_map_at(s, i);
        }
    }
    assert(m1 =~= m2);
}

impl<V: DeepView> StrMap<V> {
    pub fn new() -> (r: Self)
        ensures
            r@ == Map::<Seq<char>, V::V>::empty(),
            r.wf(),
    {
        StrMap { entries: Vec::new() }
    }

    /// Position of the entry holding `k`, searching from the back.
    pub fn find(&self, k: &String) -> (r: Option<usize>)
        ensures
            match r {
                Some(j) => j < self.entries@.len() && self.entries@[j as int].key@ == k@
                    && self@.contains_key(k@) && self@[k@] == self.entries@[j as int].value.deep_view(),
                None => !self@.contains_key(k@),
            },
    {
        let mut i: usize = self.entries.len();
        while i > 0
            invariant
                i <= self.entries@.len(),
                forall|j: int| i <= j < self.entries@.len() ==> self.entries@[j].key@ != k@,
            decreases i,
        {
            if self.entries[i - 1].key == *k {
                proof {
                    let s = self.entries@;
                    lemma_entries_map_skip(s, i as int, k@);
                    assert(s.take(i as int).drop_last() =~= s.take(i - 1));
                }
                return Some(i - 1);
            }
            i = i - 1;
        }
        proof {
            lemma_entries_map_skip(self.entries@, 0, k@);
        }
        None
    }

    /// The value of `k`, if any.
    pub fn get(&self, k: &String) -> (r: Option<&V>)
        ensures
            match r {
                Some(v) => self@.contains_key(k@) && self@[k@] == v.deep_view(),
                None => !self@.contains_key(k@),
            },
    {
        match self.find(k) {
            Some(j) => Some(&self.entries[j].value),
            None => None,
        }
    }

    /// Sets the value of `k`, replacing an earlier one.
    pub fn insert(&mut self, k: String, v: V)
        requires
            old(self).wf(),
        ensures
            final(self).wf(),
            final(self)@ == old(self)@.insert(k@, v.deep_view()),
    {
        match self.find(&k) {
            Some(j) => {
                proof {
                    lemma_entries_map_update(self.entries@, j as int, StrEntry { key: k, value: v });
                }
                self.entries.set(j, StrEntry { key: k, value: v });
            },
            None => {
                let ghost s = self.entries@;
                proof {
                    assert forall|i: int| 0 <= i < s.len() implies s[i].key@ != k@ by {
                        lemma_entries_map_dom(s, k@);
                    }
                }
                self.entries.push(StrEntry { key: k, value: v });
                proof {
                    assert(self.entries@.drop_last() =~= s);
                }
            },
        }
    }
}

/// The list a key maps to, empty when the key is absent.
pub open spec fn lookup_seq<X>(m: Map<Seq<char>, Seq<X>>, k: Seq<char>) -> Seq<X> {
    if m.contains_key(k) {
        m[k]
    } else {
        Seq::empty()
    }
}

/// No key maps to an empty list.
pub open spec fn no_empty_lists<X>(m: Map<Seq<char>, Seq<X>>) -> bool {
    forall|k: Seq<char>| #[trigger] m.contains_key(k) ==> m[k].len() > 0
}

impl<T: DeepView> StrMap<Vec<T>> {
    /// Appends `x` to the list of `k`, starting a new list when `k` has none.
    pub fn push_value(&mut self, k: String, x: T)
        requires
            old(self).wf(),
        ensures
            final(self).wf(),
            final(self)@ == old(self)@.insert(k@, lookup_seq(old(self)@, k@).push(x.deep_view())),
            no_empty_lists(old(self)@) ==> no_empty_lists(final(self)@),
    {
        match self.find(&k) {
            Some(j) => {
                let ghost s = self.entries@;
                let ghost dv = x.deep_view();
                self.entries[j].value.push(x);
                proof {
                    let e = self.entries@[j as int];
                    assert(self.entries@ =~= s.update(j as int, e));
                    assert(e.value.deep_view() =~= s[j as int].value.deep_view().push(dv));
                    lemma_entries_map_update(s, j as int, e);
                }
            },
            None => {
                let ghost dv = x.deep_view();
                let mut v: Vec<T> = Vec::new();
                v.push(x);
                proof {
                    assert(v.deep_view() =~= Seq::<T::V>::empty().push(dv));
                }
                self.insert(k, v);
            },
        }
    }
}

} // verus!
