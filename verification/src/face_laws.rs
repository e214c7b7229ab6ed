//! What face attributes and the faces of new frames are.
use crate::value::{sym, symbol_name, Lisp};
use crate::xfaces::{
    attribute_slot, default_entry, defaults_ensured, entries_get, entries_put, face_names,
    face_number, law_entries_put, with_attribute, with_attributes,
};
use vstd::prelude::*;

verus! {

/// No two attributes have the same place, and no place is the first one.
pub proof fn law_attributes_have_their_places(a: Seq<char>, b: Seq<char>)
    ensures
        attribute_slot(a) is Some && attribute_slot(a) == attribute_slot(b) ==> a == b,
        attribute_slot(a) matches Some(n) ==> 1 <= n < 20,
{
}

/// An attribute that is set is at its place, and every other place is as it was. Colours
/// that are nil and attributes that name other faces or fonts are not taken; a box that is
/// `t` is one pixel wide.
pub proof fn law_attribute_is_set(attrs: Seq<Lisp>, name: Seq<char>, v: Lisp, slot: int, i: int)
    requires
        attrs.len() == 20,
        attribute_slot(name) == Some(slot),
        0 <= i < 20,
    ensures
        ({
            let t = with_attribute(attrs, Lisp::Symbol(name), v);
            let colour = name == ":foreground"@ || name == ":background"@ || name
                == ":distant-foreground"@;
            let left = name == ":stipple"@ || name == ":font"@ || name == ":inherit"@ || name
                == ":fontset"@;
            &&& t.len() == 20
            &&& i != slot ==> t[i] == attrs[i]
            &&& left ==> t == attrs
            &&& colour && v == Lisp::Nil ==> t == attrs
            &&& colour && v != Lisp::Nil ==> t[slot] == v
            &&& !left && !colour && !(name == ":box"@ && v == Lisp::True) ==> t[slot] == v
            &&& name == ":box"@ ==> with_attribute(attrs, Lisp::Symbol(name), Lisp::True)
                == with_attribute(attrs, Lisp::Symbol(name), Lisp::Int(1))
        }),
{
    assert(symbol_name(Lisp::Symbol(name)) == Some(name));
    reveal_strlit(":foreground");
    reveal_strlit(":background");
    reveal_strlit(":distant-foreground");
    reveal_strlit(":stipple");
    reveal_strlit(":font");
    reveal_strlit(":inherit");
    reveal_strlit(":fontset");
    reveal_strlit(":box");
    assert(":foreground"@.len() == 11 && ":background"@.len() == 11 && ":distant-foreground"@.len()
        == 19 && ":stipple"@.len() == 8 && ":font"@.len() == 5 && ":inherit"@.len() == 8
        && ":fontset"@.len() == 8 && ":box"@.len() == 4);
}

/// Attributes are taken in turn, so that the last of a kind counts.
pub proof fn law_last_attribute_counts(
    attrs: Seq<Lisp>,
    plist: Seq<Lisp>,
    key: Lisp,
    v: Lisp,
    n: nat,
)
    requires
        plist.len() == 2 * n,
    ensures
        with_attributes(attrs, plist + seq![key, v]) == with_attribute(
            with_attributes(attrs, plist),
            key,
            v,
        ),
    decreases n,
{
    let whole = plist + seq![key, v];
    if n == 0 {
        assert(whole =~= seq![key, v]);
        assert(whole.skip(2) =~= Seq::<Lisp>::empty());
        reveal_with_fuel(with_attributes, 2);
    } else {
        assert(whole[0] == plist[0] && whole[1] == plist[1]);
        assert(whole.skip(2) =~= plist.skip(2) + seq![key, v]);
        law_last_attribute_counts(
            with_attribute(attrs, plist[0], plist[1]),
            plist.skip(2),
            key,
            v,
            (n - 1) as nat,
        );
    }
}

/// The number of a face is its place among the faces.
pub proof fn law_face_has_its_number(names: Seq<Seq<char>>, name: Seq<char>)
    ensures
        face_number(names, name) matches Some(i) ==> 0 <= i < names.len() && names[i] == name,
        face_number(names, name) is None ==> !names.contains(name),
    decreases names.len(),
{
    if names.len() > 0 {
        law_face_has_its_number(names.drop_last(), name);
        if names.contains(name) && names.last() != name {
            let i = choose|i: int| 0 <= i < names.len() && names[i] == name;
            assert(names.drop_last()[i] == name);
        }
    }
}

/// The table of defaults for new frames holds a face after it was asked for, with its number
/// and no attribute set, and holds what else was put into it before.
pub proof fn law_default_face_is_held(
    s: crate::symbol::Symbols,
    name: Seq<char>,
    id: int,
)
    requires
        s.value("face--new-frame-defaults"@) is Some,
        s.value("face--new-frame-defaults"@)->0 is HashTable,
        face_number(face_names(), name) == Some(id),
    ensures
        ({
            let (t, table) = defaults_ensured(s, name);
            &&& t.value("face--new-frame-defaults"@) == table
            &&& table matches Some(Lisp::HashTable(_, entries)) && entries_get(*entries, sym(name))
                == Some(default_entry(id))
        }),
{
    match s.value("face--new-frame-defaults"@) {
        Some(Lisp::HashTable(test, entries)) => {
            let seeded = crate::xfaces::seeded_entries(*entries, face_names().len() as int);
            law_entries_put(seeded, sym(name), default_entry(id));
            let table = Lisp::HashTable(
                test,
                Box::new(entries_put(seeded, sym(name), default_entry(id))),
            );
            crate::table::law_entry_set(s.values, "face--new-frame-defaults"@, table);
        },
        _ => {},
    }
}

} // verus!
