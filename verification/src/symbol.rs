//! Symbols: their values and their properties.
use crate::table::{entry, lemma_entry_found, with_entry, SymTable};
use crate::text::str_eq;
use crate::value::{Lisp, Value};
use vstd::prelude::*;

verus! {

/// What the symbols of a session hold.
pub struct Symbols {
    pub values: Seq<(Seq<char>, Lisp)>,
    pub properties: Seq<((Seq<char>, Seq<char>), Lisp)>,
    pub special: Seq<Seq<char>>,
    pub local_if_set: Seq<Seq<char>>,
}

/// The table of symbols.
#[derive(Debug, PartialEq, Eq)]
pub struct Obarray {
    pub values: SymTable,
    pub properties: Vec<(String, String, Value)>,
    pub special: Vec<String>,
    pub local_if_set: Vec<String>,
}

/// What some names are.
pub open spec fn name_views(s: Seq<String>) -> Seq<Seq<char>> {
    Seq::new(s.len(), |i: int| s[i]@)
}

/// What some properties are.
pub open spec fn property_views(s: Seq<(String, String, Value)>) -> Seq<
    ((Seq<char>, Seq<char>), Lisp),
> {
    Seq::new(s.len(), |i: int| ((s[i].0@, s[i].1@), s[i].2@))
}

impl View for Obarray {
    type V = Symbols;

    open spec fn view(&self) -> Symbols {
        Symbols {
            values: self.values@,
            properties: property_views(self.properties@),
            special: name_views(self.special@),
            local_if_set: name_views(self.local_if_set@),
        }
    }
}

impl Symbols {
    /// The symbols with one more value.
    pub open spec fn bind(self, name: Seq<char>, value: Lisp) -> Symbols {
        Symbols { values: with_entry(self.values, name, value), ..self }
    }

    /// The symbols with one more property.
    pub open spec fn put(self, name: Seq<char>, property: Seq<char>, value: Lisp) -> Symbols {
        Symbols { properties: with_entry(self.properties, (name, property), value), ..self }
    }

    /// The symbols with one more that is declared special.
    pub open spec fn declared_special(self, name: Seq<char>) -> Symbols {
        Symbols { special: self.special.push(name), ..self }
    }

    /// The symbols with one more that becomes buffer-local where it is set.
    pub open spec fn declared_local_if_set(self, name: Seq<char>) -> Symbols {
        Symbols { local_if_set: self.local_if_set.push(name), ..self }
    }

    /// The value of a symbol.
    pub open spec fn value(self, name: Seq<char>) -> Option<Lisp> {
        entry(self.values, name)
    }

    /// A property of a symbol.
    pub open spec fn property(self, name: Seq<char>, property: Seq<char>) -> Option<Lisp> {
        entry(self.properties, (name, property))
    }
}

impl Obarray {
    /// A table without symbols.
    pub fn new() -> (r: Self)
        ensures
            r@.values == Seq::<(Seq<char>, Lisp)>::empty(),
            r@.properties == Seq::<((Seq<char>, Seq<char>), Lisp)>::empty(),
            r@.special == Seq::<Seq<char>>::empty(),
            r@.local_if_set == Seq::<Seq<char>>::empty(),
    {
        let r = Obarray {
            values: SymTable::new(),
            properties: Vec::new(),
            special: Vec::new(),
            local_if_set: Vec::new(),
        };
        proof {
            assert(r@.properties =~= Seq::<((Seq<char>, Seq<char>), Lisp)>::empty());
            assert(r@.special =~= Seq::<Seq<char>>::empty());
            assert(r@.local_if_set =~= Seq::<Seq<char>>::empty());
        }
        r
    }

    /// The value of a symbol.
    pub fn symbol_value(&self, name: &str) -> (r: Option<Value>)
        ensures
            match r {
                Some(v) => self@.value(name@) == Some(v@),
                None => self@.value(name@) is None,
            },
    {
        self.values.get(name)
    }

    /// Sets the value of a symbol.
    pub fn set_symbol_value(&mut self, name: &str, value: Value)
        ensures
            final(self)@ == old(self)@.bind(name@, value@),
    {
        self.values.set(name, value);
    }

    /// The index of a property.
    fn property_index(&self, name: &str, property: &str) -> (r: usize)
        ensures
            r <= self.properties.len(),
            r == crate::table::entry_index(self@.properties, (name@, property@)),
    {
        let mut i: usize = 0;
        let ghost key = (name@, property@);
        while i < self.properties.len()
            invariant
                i <= self.properties.len(),
                key == (name@, property@),
                forall|j: int| 0 <= j < i ==> (#[trigger] self@.properties[j]).0 != key,
            decreases self.properties.len() - i,
        {
            if str_eq(self.properties[i].0.as_str(), name) && str_eq(
                self.properties[i].1.as_str(),
                property,
            ) {
                proof {
                    assert(self@.properties[i as int].0 == key);
                    lemma_entry_found(self@.properties, key, i as int);
                }
                return i;
            }
            i = i + 1;
        }
        proof {
            lemma_entry_found(self@.properties, key, i as int);
        }
        i
    }

    /// A property of a symbol.
    pub fn get_property(&self, name: &str, property: &str) -> (r: Option<Value>)
        ensures
            match r {
                Some(v) => self@.property(name@, property@) == Some(v@),
                None => self@.property(name@, property@) is None,
            },
    {
        let i: usize = self.property_index(name, property);
        if i < self.properties.len() {
            Some(self.properties[i].2.copy())
        } else {
            None
        }
    }

    /// Sets a property of a symbol.
    pub fn put_property(&mut self, name: &str, property: &str, value: Value)
        ensures
            final(self)@ == old(self)@.put(name@, property@, value@),
    {
        let i: usize = self.property_index(name, property);
        let ghost before = self@;
        let ghost v = value@;
        if i < self.properties.len() {
            self.properties.set(i, (name.to_owned(), property.to_owned(), value));
        } else {
            self.properties.push((name.to_owned(), property.to_owned(), value));
        }
        proof {
            assert(self@.properties =~= before.put(name@, property@, v).properties);
        }
    }

    /// Whether a name is among some names.
    fn among(names: &Vec<String>, name: &str) -> (r: bool)
        ensures
            r == name_views(names@).contains(name@),
    {
        let mut i: usize = 0;
        while i < names.len()
            invariant
                i <= names.len(),
                forall|j: int| 0 <= j < i ==> (#[trigger] name_views(names@)[j]) != name@,
            decreases names.len() - i,
        {
            if str_eq(names[i].as_str(), name) {
                proof {
                    assert(name_views(names@)[i as int] == name@);
                }
                return true;
            }
            i = i + 1;
        }
        false
    }

    /// Whether a symbol is declared special.
    pub fn is_special(&self, name: &str) -> (r: bool)
        ensures
            r == self@.special.contains(name@),
    {
        Self::among(&self.special, name)
    }

    /// Declares a symbol special.
    pub fn make_special(&mut self, name: &str)
        ensures
            final(self)@ == old(self)@.declared_special(name@),
    {
        let ghost before = self@;
        self.special.push(name.to_owned());
        proof {
            assert(self@.special =~= before.special.push(name@));
        }
    }

    /// Whether a symbol becomes buffer-local where it is set.
    pub fn is_local_if_set(&self, name: &str) -> (r: bool)
        ensures
            r == self@.local_if_set.contains(name@),
    {
        Self::among(&self.local_if_set, name)
    }

    /// Lets a symbol become buffer-local where it is set.
    pub fn make_local_if_set(&mut self, name: &str)
        ensures
            final(self)@ == old(self)@.declared_local_if_set(name@),
    {
        let ghost before = self@;
        self.local_if_set.push(name.to_owned());
        proof {
            assert(self@.local_if_set =~= before.local_if_set.push(name@));
        }
    }
}

} // verus!
