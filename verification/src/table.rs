//! A small map keyed by job label, for the facts `launchctl` reports.
//!
//! vstd states what a `HashMap` does only for keys that obey its key model,
//! which it grants to integers and `bool` and not to `String`; a label is a
//! `String`, so the table keeps its entries in a vector with distinct labels
//! and states its contents as a `Map` from label text to value.

use vstd::prelude::*;

use crate::text::{chars_of, eq_chars};

verus! {

/// The map that a list of `(label, value)` entries describes when they are
/// inserted in order, a later entry replacing an earlier one.
pub open spec fn entries_map<V>(s: Seq<(String, V)>) -> Map<Seq<char>, V>
    decreases s.len(),
{
    if s.len() == 0 {
        Map::empty()
    } else {
        entries_map(s.drop_last()).insert(s.last().0@, s.last().1)
    }
}

/// No two entries share a label.
pub open spec fn distinct_labels<V>(s: Seq<(String, V)>) -> bool {
    forall|i: int, j: int| 0 <= i < s.len() && 0 <= j < s.len() && i != j ==> s[i].0@ != s[j].0@
}

proof fn lemma_entries_map_has<V>(s: Seq<(String, V)>, i: int)
    requires
        distinct_labels(s),
        0 <= i < s.len(),
    ensures
        entries_map(s).contains_key(s[i].0@),
        entries_map(s)[s[i].0@] == s[i].1,
    decreases s.len(),
{
    if i < s.len() - 1 {
        assert(s.drop_last()[i] == s[i]);
        lemma_entries_map_has(s.drop_last(), i);
    }
}

proof fn lemma_entries_map_lacks<V>(s: Seq<(String, V)>, k: Seq<char>)
    requires
        forall|i: int| 0 <= i < s.len() ==> (#[trigger] s[i]).0@ != k,
    ensures
        !entries_map(s).contains_key(k),
    decreases s.len(),
{
    if s.len() > 0 {
        assert forall|i: int| 0 <= i < s.drop_last().len() implies (#[trigger] s.drop_last()[i]).0@ != k by {
            assert(s.drop_last()[i] == s[i]);
        }
        lemma_entries_map_lacks(s.drop_last(), k);
        assert(s.last() == s[s.len() - 1]);
    }
}

proof fn lemma_entries_map_finite_len<V>(s: Seq<(String, V)>)
    requires
        distinct_labels(s),
    ensures
        entries_map(s).dom().finite(),
        entries_map(s).dom().len() == s.len(),
    decreases s.len(),
{
    if s.len() > 0 {
        let t = s.drop_last();
        assert(distinct_labels(t)) by {
            assert forall|i: int, j: int| 0 <= i < t.len() && 0 <= j < t.len() && i != j implies t[i].0@ != t[j].0@ by {
                assert(t[i] == s[i] && t[j] == s[j]);
            }
        }
        lemma_entries_map_finite_len(t);
        assert forall|i: int| 0 <= i < t.len() implies (#[trigger] t[i]).0@ != s.last().0@ by {
            assert(t[i] == s[i]);
            assert(s.last() == s[s.len() - 1]);
        }
        lemma_entries_map_lacks(t, s.last().0@);
    }
}

proof fn lemma_entries_map_update<V>(s: Seq<(String, V)>, i: int, e: (String, V))
    requires
        distinct_labels(s),
        0 <= i < s.len(),
        s[i].0@ == e.0@,
    ensures
        entries_map(s.update(i, e)) == entries_map(s).insert(e.0@, e.1),
        distinct_labels(s.update(i, e)),
    decreases s.len(),
{
    let u = s.update(i, e);
    assert(distinct_labels(u)) by {
        assert forall|a: int, b: int| 0 <= a < u.len() && 0 <= b < u.len() && a != b implies u[a].0@ != u[b].0@ by {
            if a == i {
                assert(u[a].0@ == s[i].0@);
            }
            if b == i {
                assert(u[b].0@ == s[i].0@);
            }
        }
    }
    let t = s.drop_last();
    assert(distinct_labels(t)) by {
        assert forall|a: int, b: int| 0 <= a < t.len() && 0 <= b < t.len() && a != b implies t[a].0@ != t[b].0@ by {
            assert(t[a] == s[a] && t[b] == s[b]);
        }
    }
    if i == s.len() - 1 {
        assert(u.drop_last() =~= t);
        assert forall|j: int| 0 <= j < t.len() implies (#[trigger] t[j]).0@ != e.0@ by {
            assert(t[j] == s[j]);
        }
        lemma_entries_map_lacks(t, e.0@);
        assert(entries_map(u) =~= entries_map(s).insert(e.0@, e.1));
    } else {
        assert(u.drop_last() =~= t.update(i, e));
        lemma_entries_map_update(t, i, e);
        assert(s.last() == s[s.len() - 1]);
        assert(s.last().0@ != e.0@);
        assert(u.last() == s.last());
        assert(entries_map(u) =~= entries_map(s).insert(e.0@, e.1));
    }
}

/// A map from job label to a value, remembering one value per label.
#[derive(Debug)]
pub struct LabelMap<V> {
    entries: Vec<(String, V)>,
}

impl<V> LabelMap<V> {
    #[verifier::type_invariant]
    spec fn well_formed(&self) -> bool {
        distinct_labels(self.entries@)
    }

    /// The labels and their values.
    pub closed spec fn view(&self) -> Map<Seq<char>, V> {
        entries_map(self.entries@)
    }

    /// An empty map.
    pub fn new() -> (m: Self)
        ensures
            m.view() == Map::<Seq<char>, V>::empty(),
            m.view().dom().finite(),
    {
        LabelMap { entries: Vec::new() }
    }

    fn position(&self, label: &Vec<char>) -> (r: Option<usize>)
        ensures
            match r {
                Some(i) => i < self.entries@.len() && self.entries@[i as int].0@ == label@,
                None => forall|i: int| 0 <= i < self.entries@.len() ==> (#[trigger] self.entries@[i]).0@ != label@,
            },
    {
        for i in 0..self.entries.len()
            invariant
                forall|j: int| 0 <= j < i ==> (#[trigger] self.entries@[j]).0@ != label@,
        {
            let k = chars_of(self.entries[i].0.as_str());
            if eq_chars(&k, label) {
                return Some(i);
            }
        }
        None
    }

    /// Records `value` for `label`, replacing any value it had.
    pub fn insert(&mut self, label: String, value: V)
        ensures
            final(self).view() == old(self).view().insert(label@, value),
    {
        proof {
            use_type_invariant(&*self);
        }
        let key = chars_of(label.as_str());
        match self.position(&key) {
            Some(i) => {
                proof {
                    lemma_entries_map_update(self.entries@, i as int, (label, value));
                }
                let ghost before = self.entries@;
                let mut entries: Vec<(String, V)> = Vec::new();
                std::mem::swap(&mut entries, &mut self.entries);
                entries.set(i, (label, value));
                assert(entries@ == before.update(i as int, (label, value)));
                self.entries = entries;
            },
            None => {
                let mut entries: Vec<(String, V)> = Vec::new();
                std::mem::swap(&mut entries, &mut self.entries);
                let ghost before = entries@;
                entries.push((label, value));
                proof {
                    let s = entries@;
                    assert(s.drop_last() =~= before);
                    assert forall|a: int, b: int| 0 <= a < s.len() && 0 <= b < s.len() && a != b implies s[a].0@ != s[b].0@ by {
                        if a < before.len() && b < before.len() {
                            assert(s[a] == before[a] && s[b] == before[b]);
                        } else if a < before.len() {
                            assert(s[a] == before[a]);
                        } else {
                            assert(s[b] == before[b]);
                        }
                    }
                }
                self.entries = entries;
            },
        }
    }

    /// The value recorded for `label`, if any.
    pub fn get(&self, label: &str) -> (r: Option<&V>)
        ensures
            match r {
                Some(v) => self.view().contains_key(label@) && self.view()[label@] == *v,
                None => !self.view().contains_key(label@),
            },
    {
        proof {
            use_type_invariant(self);
        }
        let key = chars_of(label);
        match self.position(&key) {
            Some(i) => {
                proof {
                    lemma_entries_map_has(self.entries@, i as int);
                }
                Some(&self.entries[i].1)
            },
            None => {
                proof {
                    lemma_entries_map_lacks(self.entries@, label@);
                }
                None
            },
        }
    }

    /// Whether `label` has a value.
    pub fn contains_key(&self, label: &str) -> (r: bool)
        ensures
            r == self.view().contains_key(label@),
    {
        match self.get(label) {
            Some(_) => true,
            None => false,
        }
    }

    /// How many labels have a value.
    pub fn len(&self) -> (r: usize)
        ensures
            self.view().dom().finite(),
            r == self.view().dom().len(),
    {
        proof {
            use_type_invariant(self);
            lemma_entries_map_finite_len(self.entries@);
        }
        self.entries.len()
    }
}

} // verus!
