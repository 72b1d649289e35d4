//! The rule table: an ordered mapping from rule names to values.
//!
//! Both passes of the pipeline produce one: the flatten pass a table of
//! [`crate::node::Node`], the link pass a table of
//! [`crate::node::LinkedNode`].  Entries keep the order in which they were
//! first inserted, which is the declaration order of the document, and a
//! later insert under an existing name replaces the value in place.
use vstd::prelude::*;

use crate::text::str_eq;

verus! {

/// The views of an entry list, pair by pair.
pub open spec fn entries_view<T: View>(s: Seq<(String, T)>) -> Seq<(Seq<char>, T::V)> {
    Seq::new(s.len(), |i: int| (s[i].0@, s[i].1@))
}

/// First-match lookup in an entry sequence.
pub open spec fn map_get<V>(m: Seq<(Seq<char>, V)>, key: Seq<char>) -> Option<V>
    decreases m.len(),
{
    if m.len() == 0 {
        None
    } else if m[0].0 == key {
        Some(m[0].1)
    } else {
        map_get(m.drop_first(), key)
    }
}

/// Whether an entry sequence holds a key.
pub open spec fn map_has<V>(m: Seq<(Seq<char>, V)>, key: Seq<char>) -> bool {
    map_get(m, key) is Some
}

/// Insert into an entry sequence: replace in place under an existing key,
/// append under a new one.
pub open spec fn map_insert<V>(m: Seq<(Seq<char>, V)>, key: Seq<char>, val: V) -> Seq<
    (Seq<char>, V),
>
    decreases m.len(),
{
    if m.len() == 0 {
        seq![(key, val)]
    } else if m[0].0 == key {
        seq![(key, val)] + m.drop_first()
    } else {
        seq![m[0]] + map_insert(m.drop_first(), key, val)
    }
}

/// Lookup lands on the first entry whose key matches.
pub proof fn lemma_map_get_at<V>(m: Seq<(Seq<char>, V)>, key: Seq<char>, i: int)
    requires
        0 <= i < m.len(),
        m[i].0 == key,
        forall|j: int| 0 <= j < i ==> m[j].0 != key,
    ensures
        map_get(m, key) == Some(m[i].1),
    decreases i,
{
    if i > 0 {
        lemma_map_get_at(m.drop_first(), key, i - 1);
    }
}

/// Lookup misses when no entry's key matches.
pub proof fn lemma_map_get_none<V>(m: Seq<(Seq<char>, V)>, key: Seq<char>)
    requires
        forall|j: int| 0 <= j < m.len() ==> m[j].0 != key,
    ensures
        map_get(m, key) is None,
    decreases m.len(),
{
    if m.len() > 0 {
        lemma_map_get_none(m.drop_first(), key);
    }
}

/// Inserting under the first matching key replaces that entry in place.
pub proof fn lemma_map_insert_at<V>(m: Seq<(Seq<char>, V)>, key: Seq<char>, val: V, i: int)
    requires
        0 <= i < m.len(),
        m[i].0 == key,
        forall|j: int| 0 <= j < i ==> m[j].0 != key,
    ensures
        map_insert(m, key, val) =~= m.update(i, (key, val)),
    decreases i,
{
    if i > 0 {
        lemma_map_insert_at(m.drop_first(), key, val, i - 1);
    }
}

/// Inserting under a fresh key appends the entry.
pub proof fn lemma_map_insert_push<V>(m: Seq<(Seq<char>, V)>, key: Seq<char>, val: V)
    requires
        forall|j: int| 0 <= j < m.len() ==> m[j].0 != key,
    ensures
        map_insert(m, key, val) =~= m.push((key, val)),
    decreases m.len(),
{
    if m.len() > 0 {
        lemma_map_insert_push(m.drop_first(), key, val);
    }
}

/// An ordered mapping from rule names to values of type `T`.
#[derive(Debug, PartialEq)]
pub struct NameMap<T> {
    entries: Vec<(String, T)>,
}

impl<T: View> View for NameMap<T> {
    type V = Seq<(Seq<char>, T::V)>;

    closed spec fn view(&self) -> Seq<(Seq<char>, T::V)> {
        entries_view(self.entries@)
    }
}

impl<T: View> NameMap<T> {
    /// The empty table.
    pub fn new() -> (r: NameMap<T>)
        ensures
            r@ == Seq::<(Seq<char>, T::V)>::empty(),
    {
        let r = NameMap { entries: Vec::new() };
        proof {
            assert(r@ =~= Seq::<(Seq<char>, T::V)>::empty());
        }
        r
    }

    /// How many names the table holds.
    pub fn len(&self) -> (r: usize)
        ensures
            r == self@.len(),
    {
        self.entries.len()
    }

    /// Whether the table holds no names.
    pub fn is_empty(&self) -> (r: bool)
        ensures
            r == (self@.len() == 0),
    {
        self.entries.is_empty()
    }

    /// Bind a name to a value: an existing binding of the same name is
    /// replaced in place, a new name is appended at the end.
    pub fn insert(&mut self, key: String, val: T)
        ensures
            final(self)@ == map_insert(old(self)@, key@, val@),
    {
        let ghost m = self@;
        let mut i: usize = 0;
        while i < self.entries.len()
            invariant
                self == old(self),
                m == self@,
                0 <= i <= self.entries.len(),
                forall|j: int| 0 <= j < i ==> m[j].0 != key@,
            decreases self.entries.len() - i,
        {
            if str_eq(self.entries[i].0.as_str(), key.as_str()) {
                proof {
                    lemma_map_insert_at(m, key@, val@, i as int);
                }
                let entry = vstd::std_specs::vec::vec_index_mut(&mut self.entries, i);
                *entry = (key, val);
                proof {
                    assert(self@ =~= m.update(i as int, (key@, val@)));
                }
                return ;
            }
            i = i + 1;
        }
        proof {
            lemma_map_insert_push(m, key@, val@);
        }
        self.entries.push((key, val));
        proof {
            assert(self@ =~= m.push((key@, val@)));
        }
    }

    /// Append a binding at the end without scanning; callers use it where
    /// they keep names distinct themselves.
    pub fn push_entry(&mut self, key: String, val: T)
        ensures
            final(self)@ == old(self)@.push((key@, val@)),
    {
        let ghost m = self@;
        self.entries.push((key, val));
        proof {
            assert(self@ =~= m.push((key@, val@)));
        }
    }

    /// Look a name up.
    pub fn get(&self, key: &str) -> (r: Option<&T>)
        ensures
            match r {
                Some(v) => map_get(self@, key@) == Some(v@),
                None => map_get(self@, key@) is None,
            },
    {
        let mut i: usize = 0;
        while i < self.entries.len()
            invariant
                0 <= i <= self.entries.len(),
                forall|j: int| 0 <= j < i ==> self@[j].0 != key@,
            decreases self.entries.len() - i,
        {
            if str_eq(self.entries[i].0.as_str(), key) {
                proof {
                    lemma_map_get_at(self@, key@, i as int);
                }
                return Some(&self.entries[i].1);
            }
            i = i + 1;
        }
        proof {
            lemma_map_get_none(self@, key@);
        }
        None
    }

    /// The position of a name's first binding, if any.
    pub fn index_of(&self, key: &str) -> (r: Option<usize>)
        ensures
            match r {
                Some(i) => i < self@.len() && self@[i as int].0 == key@ && (forall|j: int|
                    0 <= j < i ==> self@[j].0 != key@),
                None => forall|j: int| 0 <= j < self@.len() ==> self@[j].0 != key@,
            },
    {
        let mut i: usize = 0;
        while i < self.entries.len()
            invariant
                0 <= i <= self.entries.len(),
                forall|j: int| 0 <= j < i ==> self@[j].0 != key@,
            decreases self.entries.len() - i,
        {
            if str_eq(self.entries[i].0.as_str(), key) {
                return Some(i);
            }
            i = i + 1;
        }
        None
    }

    /// Borrow the value at a position for writing.
    pub fn value_at_mut(&mut self, i: usize) -> (r: &mut T)
        requires
            i < old(self)@.len(),
        ensures
            (*r)@ == old(self)@[i as int].1,
            final(self)@ =~= old(self)@.update(i as int, (old(self)@[i as int].0, final(r)@)),
    {
        let entry = vstd::std_specs::vec::vec_index_mut(&mut self.entries, i);
        &mut entry.1
    }

    /// Whether the table binds a name.
    pub fn contains_key(&self, key: &str) -> (r: bool)
        ensures
            r == map_has(self@, key@),
    {
        match self.get(key) {
            Some(_) => true,
            None => false,
        }
    }

    /// The entry at a position, in insertion order.
    pub fn entry_at(&self, i: usize) -> (r: &(String, T))
        requires
            i < self@.len(),
        ensures
            r.0@ == self@[i as int].0,
            r.1@ == self@[i as int].1,
    {
        &self.entries[i]
    }

    /// Give the entries up, in insertion order.
    pub fn into_entries(self) -> (r: Vec<(String, T)>)
        ensures
            entries_view(r@) == self@,
    {
        self.entries
    }

}

} // verus!
