//! An ordered mapping from display labels to values: entries keep the order
//! in which their labels were first inserted, and inserting a label that is
//! already present replaces its value in place.

use vstd::prelude::*;
use vstd::string::StringExecFns;

verus! {

/// Index of the first entry labelled `k` at or after `i`, or -1.
pub open spec fn find_label<V>(m: Seq<(Seq<char>, V)>, k: Seq<char>, i: int) -> int
    decreases m.len() - i,
{
    if i < 0 || i >= m.len() {
        -1
    } else if m[i].0 == k {
        i
    } else {
        find_label(m, k, i + 1)
    }
}

/// The entries after inserting `v` under `k`.
pub open spec fn label_insert<V>(m: Seq<(Seq<char>, V)>, k: Seq<char>, v: V) -> Seq<(Seq<char>, V)> {
    let i = find_label(m, k, 0);
    if i < 0 {
        m.push((k, v))
    } else {
        m.update(i, (k, v))
    }
}

/// The entries after inserting `vals[i]` under `keys[i]`, in order.
pub open spec fn insert_all<V>(keys: Seq<Seq<char>>, vals: Seq<V>) -> Seq<(Seq<char>, V)>
    decreases keys.len(),
{
    if keys.len() == 0 {
        Seq::empty()
    } else {
        label_insert(
            insert_all(keys.drop_last(), vals.take(keys.len() - 1)),
            keys.last(),
            vals[keys.len() - 1],
        )
    }
}

/// The value under `k`, if any.
pub open spec fn label_lookup<V>(m: Seq<(Seq<char>, V)>, k: Seq<char>) -> Option<V> {
    let i = find_label(m, k, 0);
    if i < 0 {
        None
    } else {
        Some(m[i].1)
    }
}

pub proof fn lemma_find_label_bounds<V>(m: Seq<(Seq<char>, V)>, k: Seq<char>, i: int)
    ensures
        find_label(m, k, i) == -1 || (i <= find_label(m, k, i) < m.len() && m[find_label(
            m,
            k,
            i,
        )].0 == k),
    decreases m.len() - i,
{
    if 0 <= i < m.len() && m[i].0 != k {
        lemma_find_label_bounds(m, k, i + 1);
    }
}

#[derive(Clone, Debug)]
pub struct LabelMap<V> {
    entries: Vec<(String, V)>,
}

impl<V: View> LabelMap<V> {
    pub closed spec fn view(&self) -> Seq<(Seq<char>, V::V)> {
        self.entries@.map_values(|e: (String, V)| (e.0@, e.1@))
    }

    pub fn new() -> (r: Self)
        ensures
            r.view() == Seq::<(Seq<char>, V::V)>::empty(),
    {
        LabelMap { entries: Vec::new() }
    }

    pub fn len(&self) -> (r: usize)
        ensures
            r == self.view().len(),
    {
        self.entries.len()
    }

    fn position(&self, label: &String) -> (r: Option<usize>)
        ensures
            match r {
                None => find_label(self.view(), label@, 0) == -1,
                Some(i) => find_label(self.view(), label@, 0) == i as int,
            },
    {
        let mut i: usize = 0;
        while i < self.entries.len()
            invariant
                i <= self.entries@.len(),
                find_label(self.view(), label@, i as int) == find_label(self.view(), label@, 0),
            decreases self.entries@.len() - i,
        {
            proof {
                assert(self.view()[i as int].0 == self.entries@[i as int].0@);
            }
            if self.entries[i].0 == *label {
                return Some(i);
            }
            i = i + 1;
        }
        None
    }

    /// Sets the value under `label`, replacing a present one in place.
    pub fn insert(&mut self, label: String, value: V)
        ensures
            final(self).view() == label_insert(old(self).view(), label@, value@),
    {
        let found = self.position(&label);
        proof {
            lemma_find_label_bounds(old(self).view(), label@, 0);
        }
        match found {
            None => {
                self.entries.push((label, value));
                proof {
                    assert(self.view() =~= label_insert(old(self).view(), label@, value@));
                }
            },
            Some(i) => {
                self.entries.set(i, (label, value));
                proof {
                    assert(self.view() =~= label_insert(old(self).view(), label@, value@));
                }
            },
        }
    }

    /// The value under `label`, if any.
    pub fn get(&self, label: &str) -> (r: Option<&V>)
        ensures
            match r {
                None => label_lookup(self.view(), label@) is None,
                Some(v) => label_lookup(self.view(), label@) == Some(v@),
            },
    {
        let key = String::from_str(label);
        match self.position(&key) {
            None => None,
            Some(i) => {
                proof {
                    lemma_find_label_bounds(self.view(), label@, 0);
                    assert(self.view()[i as int].1 == self.entries@[i as int].1@);
                }
                Some(&self.entries[i].1)
            },
        }
    }

    /// The label of the `i`-th entry.
    pub fn label_at(&self, i: usize) -> (r: &String)
        requires
            i < self.view().len(),
        ensures
            r@ == self.view()[i as int].0,
    {
        &self.entries[i].0
    }

    /// The value of the `i`-th entry.
    pub fn value_at(&self, i: usize) -> (r: &V)
        requires
            i < self.view().len(),
        ensures
            r@ == self.view()[i as int].1,
    {
        &self.entries[i].1
    }
}

} // verus!
