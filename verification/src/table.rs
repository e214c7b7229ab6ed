//! Tables from names to values, in the order in which the names were first set.
use crate::text::str_eq;
use crate::value::{Lisp, Value};
use vstd::prelude::*;

verus! {

/// The index of the entry with the given key; the number of entries where there is none.
pub open spec fn entry_index<K, V>(s: Seq<(K, V)>, key: K) -> int
    decreases s.len(),
{
    if s.len() == 0 {
        0
    } else if s[0].0 == key {
        0
    } else {
        1 + entry_index(s.drop_first(), key)
    }
}

/// The value of a key.
pub open spec fn entry<K, V>(s: Seq<(K, V)>, key: K) -> Option<V> {
    let i = entry_index(s, key);
    if i < s.len() {
        Some(s[i].1)
    } else {
        None
    }
}

/// The table with the given value for a key: in the place of the old value, or at the end.
pub open spec fn with_entry<K, V>(s: Seq<(K, V)>, key: K, value: V) -> Seq<(K, V)> {
    let i = entry_index(s, key);
    if i < s.len() {
        s.update(i, (key, value))
    } else {
        s.push((key, value))
    }
}

/// What the index of an entry says.
pub proof fn lemma_entry_index<K, V>(s: Seq<(K, V)>, key: K)
    ensures
        0 <= entry_index(s, key) <= s.len(),
        entry_index(s, key) < s.len() ==> s[entry_index(s, key)].0 == key,
        forall|j: int| 0 <= j < entry_index(s, key) ==> (#[trigger] s[j]).0 != key,
    decreases s.len(),
{
    if s.len() > 0 && s[0].0 != key {
        let t = s.drop_first();
        lemma_entry_index(t, key);
        assert forall|j: int| 0 <= j < entry_index(s, key) implies (#[trigger] s[j]).0 != key by {
            if j > 0 {
                assert(t[j - 1] == s[j]);
            }
        }
    }
}

/// The first place with the given key is where its entry is.
pub proof fn lemma_entry_found<K, V>(s: Seq<(K, V)>, key: K, i: int)
    requires
        0 <= i <= s.len(),
        i < s.len() ==> s[i].0 == key,
        forall|j: int| 0 <= j < i ==> (#[trigger] s[j]).0 != key,
    ensures
        entry_index(s, key) == i,
{
    lemma_entry_index(s, key);
    let k = entry_index(s, key);
    if k < i {
        assert(s[k].0 != key);
    } else if i < k {
        assert(s[i].0 != key);
    }
}

/// After a key is set, it has the value that was set.
pub proof fn law_entry_set<K, V>(s: Seq<(K, V)>, key: K, value: V)
    ensures
        entry(with_entry(s, key, value), key) == Some(value),
{
    lemma_entry_index(s, key);
    let i = entry_index(s, key);
    let t = with_entry(s, key, value);
    assert forall|j: int| 0 <= j < i implies (#[trigger] t[j]).0 != key by {
        assert(t[j] == s[j]);
    }
    lemma_entry_found(t, key, i);
}

/// Setting a key changes no other key.
pub proof fn law_entry_set_keeps_others<K, V>(s: Seq<(K, V)>, key: K, value: V, other: K)
    requires
        key != other,
    ensures
        entry(with_entry(s, key, value), other) == entry(s, other),
{
    lemma_entry_index(s, key);
    lemma_entry_index(s, other);
    let i = entry_index(s, key);
    let k = entry_index(s, other);
    let t = with_entry(s, key, value);
    assert forall|j: int| 0 <= j < k implies (#[trigger] t[j]).0 != other by {
        assert(j < s.len());
        assert(s[j].0 != other);
    }
    if k < s.len() {
        lemma_entry_found(t, other, k);
    } else {
        assert forall|j: int| 0 <= j < t.len() implies (#[trigger] t[j]).0 != other by {
            if j < s.len() {
                assert(s[j].0 != other);
            }
        }
        lemma_entry_found(t, other, t.len() as int);
    }
}

/// What the entries of a table are.
pub open spec fn entry_views(s: Seq<(String, Value)>) -> Seq<(Seq<char>, Lisp)> {
    Seq::new(s.len(), |i: int| (s[i].0@, s[i].1@))
}

/// A table from names to values.
#[derive(Debug, PartialEq, Eq)]
pub struct SymTable {
    pub entries: Vec<(String, Value)>,
}

impl View for SymTable {
    type V = Seq<(Seq<char>, Lisp)>;

    open spec fn view(&self) -> Seq<(Seq<char>, Lisp)> {
        entry_views(self.entries@)
    }
}

impl SymTable {
    /// An empty table.
    pub fn new() -> (r: Self)
        ensures
            r@ == Seq::<(Seq<char>, Lisp)>::empty(),
    {
        let r = SymTable { entries: Vec::new() };
        proof {
            assert(r@ =~= Seq::<(Seq<char>, Lisp)>::empty());
        }
        r
    }

    /// The index of the entry with the given name.
    fn index_of(&self, name: &str) -> (r: usize)
        ensures
            r == entry_index(self@, name@),
            r <= self.entries.len(),
    {
        let mut i: usize = 0;
        while i < self.entries.len()
            invariant
                i <= self.entries.len(),
                forall|j: int| 0 <= j < i ==> (#[trigger] self@[j]).0 != name@,
            decreases self.entries.len() - i,
        {
            if str_eq(self.entries[i].0.as_str(), name) {
                proof {
                    assert(self@[i as int].0 == name@);
                    lemma_entry_found(self@, name@, i as int);
                }
                return i;
            }
            i = i + 1;
        }
        proof {
            lemma_entry_found(self@, name@, i as int);
        }
        i
    }

    /// The value of a name.
    pub fn get(&self, name: &str) -> (r: Option<Value>)
        ensures
            match r {
                Some(v) => entry(self@, name@) == Some(v@),
                None => entry(self@, name@) is None,
            },
    {
        let i: usize = self.index_of(name);
        if i < self.entries.len() {
            Some(self.entries[i].1.copy())
        } else {
            None
        }
    }

    /// Sets the value of a name.
    pub fn set(&mut self, name: &str, value: Value)
        ensures
            final(self)@ == with_entry(old(self)@, name@, value@),
    {
        let i: usize = self.index_of(name);
        let ghost before = self@;
        let ghost v = value@;
        if i < self.entries.len() {
            self.entries.set(i, (name.to_owned(), value));
        } else {
            self.entries.push((name.to_owned(), value));
        }
        proof {
            assert(self@ =~= with_entry(before, name@, v));
        }
    }
}

} // verus!
