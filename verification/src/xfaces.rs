//! Faces: their attributes as vectors, their tables, and the variables about them.
use crate::frame::{Frame, FrameState};
use crate::symbol::{Obarray, Symbols};
use crate::table::{entry, with_entry};
use crate::text::str_eq;
use crate::value::{
    arg, arg_or_nil, cons, expect_args, expect_args_range, list1, list_items, list_of, list_to_vec,
    lstr, outcome, sym, symbol_name, views, EvalResult, HashTableTest, Lisp, Outcome, Value,
};
use crate::window_cmds::query::with_arity;
use crate::window_cmds::resolve::{after, frame_arg, resolve_frame_id, Found};
use crate::window_cmds::state::{ends, gives, Step, Ui, UiState};
use crate::xdisp::simple::of_arity;
use vstd::prelude::*;

verus! {

/// How many elements the vector of a face has: one for itself and one for each attribute.
pub const FACE_ATTRIBUTES_VECTOR_LEN: usize = 20;

/// The element that an attribute has in the vector of a face.
pub open spec fn attribute_slot(name: Seq<char>) -> Option<int> {
    if name == ":family"@ {
        Some(1)
    } else if name == ":foundry"@ {
        Some(2)
    } else if name == ":width"@ {
        Some(3)
    } else if name == ":height"@ {
        Some(4)
    } else if name == ":weight"@ {
        Some(5)
    } else if name == ":slant"@ {
        Some(6)
    } else if name == ":underline"@ {
        Some(7)
    } else if name == ":inverse-video"@ {
        Some(8)
    } else if name == ":foreground"@ {
        Some(9)
    } else if name == ":background"@ {
        Some(10)
    } else if name == ":stipple"@ {
        Some(11)
    } else if name == ":overline"@ {
        Some(12)
    } else if name == ":strike-through"@ {
        Some(13)
    } else if name == ":box"@ {
        Some(14)
    } else if name == ":font"@ {
        Some(15)
    } else if name == ":inherit"@ {
        Some(16)
    } else if name == ":fontset"@ {
        Some(17)
    } else if name == ":distant-foreground"@ {
        Some(18)
    } else if name == ":extend"@ {
        Some(19)
    } else {
        None
    }
}

/// The element that an attribute has in the vector of a face.
fn face_attributes_vector_slot(name: &str) -> (r: Option<usize>)
    ensures
        match r {
            Some(i) => attribute_slot(name@) == Some(i as int) && 1 <= i
                < FACE_ATTRIBUTES_VECTOR_LEN,
            None => attribute_slot(name@) is None,
        },
{
    if str_eq(name, ":family") {
        Some(1)
    } else if str_eq(name, ":foundry") {
        Some(2)
    } else if str_eq(name, ":width") {
        Some(3)
    } else if str_eq(name, ":height") {
        Some(4)
    } else if str_eq(name, ":weight") {
        Some(5)
    } else if str_eq(name, ":slant") {
        Some(6)
    } else if str_eq(name, ":underline") {
        Some(7)
    } else if str_eq(name, ":inverse-video") {
        Some(8)
    } else if str_eq(name, ":foreground") {
        Some(9)
    } else if str_eq(name, ":background") {
        Some(10)
    } else if str_eq(name, ":stipple") {
        Some(11)
    } else if str_eq(name, ":overline") {
        Some(12)
    } else if str_eq(name, ":strike-through") {
        Some(13)
    } else if str_eq(name, ":box") {
        Some(14)
    } else if str_eq(name, ":font") {
        Some(15)
    } else if str_eq(name, ":inherit") {
        Some(16)
    } else if str_eq(name, ":fontset") {
        Some(17)
    } else if str_eq(name, ":distant-foreground") {
        Some(18)
    } else if str_eq(name, ":extend") {
        Some(19)
    } else {
        None
    }
}

/// The attributes of a face that specifies none.
pub open spec fn unspecified() -> Seq<Lisp> {
    Seq::new(20, |i: int| sym("unspecified"@))
}

/// The value that an attribute is given by; nothing where it is left unspecified:
/// colors that are nil, and attributes that a display would have to resolve.
pub open spec fn attribute_value(name: Seq<char>, v: Lisp) -> Option<Lisp> {
    if (name == ":foreground"@ || name == ":background"@ || name == ":distant-foreground"@) && v
        == Lisp::Nil {
        None
    } else if name == ":stipple"@ || name == ":font"@ || name == ":inherit"@ || name
        == ":fontset"@ {
        None
    } else if name == ":box"@ && v == Lisp::True {
        Some(Lisp::Int(1))
    } else {
        Some(v)
    }
}

/// Some attributes with one more of them given.
pub open spec fn with_attribute(attrs: Seq<Lisp>, key: Lisp, v: Lisp) -> Seq<Lisp> {
    match symbol_name(key) {
        Some(name) => match attribute_slot(name) {
            Some(slot) => match attribute_value(name, v) {
                Some(x) => attrs.update(slot, x),
                None => attrs,
            },
            None => attrs,
        },
        None => attrs,
    }
}

/// Some attributes with those of a property list given, in order.
pub open spec fn with_attributes(attrs: Seq<Lisp>, plist: Seq<Lisp>) -> Seq<Lisp>
    decreases plist.len(),
{
    if plist.len() < 2 {
        attrs
    } else {
        with_attributes(with_attribute(attrs, plist[0], plist[1]), plist.skip(2))
    }
}

/// The vector of the attributes that a value gives: none where it is no proper list.
pub open spec fn attributes_vector(v: Lisp) -> Lisp {
    Lisp::Vector(
        Box::new(
            list_of(
                match list_items(v) {
                    Some(plist) => with_attributes(unspecified(), plist),
                    None => unspecified(),
                },
            ),
        ),
    )
}

/// The value that an attribute is given by.
fn given_value(name: &str, v: &Value) -> (r: Option<Value>)
    ensures
        crate::xdisp::percent::opt_view(r) == attribute_value(name@, v@),
{
    if (str_eq(name, ":foreground") || str_eq(name, ":background") || str_eq(
        name,
        ":distant-foreground",
    )) && v.is_nil() {
        None
    } else if str_eq(name, ":stipple") || str_eq(name, ":font") || str_eq(name, ":inherit")
        || str_eq(name, ":fontset") {
        None
    } else if str_eq(name, ":box") && v.is_t() {
        Some(Value::Int(1))
    } else {
        Some(v.copy())
    }
}

/// The attributes of a face that specifies none.
fn no_attributes() -> (r: Vec<Value>)
    ensures
        views(r@) == unspecified(),
{
    let mut out: Vec<Value> = Vec::new();
    let mut i: usize = 0;
    while i < FACE_ATTRIBUTES_VECTOR_LEN
        invariant
            i <= 20,
            views(out@) == unspecified().take(i as int),
        decreases FACE_ATTRIBUTES_VECTOR_LEN - i,
    {
        let v: Value = Value::symbol("unspecified");
        let ghost before = out@;
        proof {
            assert(unspecified().take(i + 1) =~= unspecified().take(i as int).push(v@));
        }
        let ghost x = v@;
        out.push(v);
        proof {
            assert(views(out@) =~= views(before).push(x));
        }
        i = i + 1;
    }
    proof {
        assert(unspecified().take(20) =~= unspecified());
    }
    out
}

/// `(face-attributes-as-vector PLIST)`
pub open spec fn face_attributes_as_vector(args: Seq<Lisp>) -> Outcome {
    of_arity(
        "face-attributes-as-vector"@,
        args,
        1,
        1,
        Outcome::Value(attributes_vector(arg(args, 0))),
    )
}

/// `(face-attributes-as-vector PLIST)` -> the vector of the attributes in PLIST.
pub fn builtin_face_attributes_as_vector(args: &Vec<Value>) -> (r: EvalResult)
    ensures
        outcome(r) == face_attributes_as_vector(views(args@)),
{
    expect_args("face-attributes-as-vector", args, 1)?;
    let mut attrs: Vec<Value> = no_attributes();
    match list_to_vec(&arg_or_nil(args, 0)) {
        None => {},
        Some(plist) => {
            let ghost all = views(plist@);
            let ghost whole = with_attributes(unspecified(), all);
            let mut i: usize = 0;
            proof {
                assert(all.skip(0) =~= all);
            }
            while plist.len() - i >= 2
                invariant
                    i <= plist.len(),
                    all == views(plist@),
                    views(attrs@).len() == 20,
                    with_attributes(views(attrs@), all.skip(i as int)) == whole,
                decreases plist.len() - i,
            {
                let ghost before = views(attrs@);
                proof {
                    let rest = all.skip(i as int);
                    assert(rest[0] == plist@[i as int]@ && rest[1] == plist@[i + 1]@);
                    assert(rest.skip(2) =~= all.skip(i + 2));
                }
                match plist[i].as_symbol_name() {
                    Some(name) => match face_attributes_vector_slot(name.as_str()) {
                        Some(slot) => match given_value(name.as_str(), &plist[i + 1]) {
                            Some(v) => {
                                let ghost x = v@;
                                attrs.set(slot, v);
                                proof {
                                    assert(views(attrs@) =~= before.update(slot as int, x));
                                }
                            },
                            None => {},
                        },
                        None => {},
                    },
                    None => {},
                }
                proof {
                    assert(views(attrs@) == with_attribute(
                        before,
                        plist@[i as int]@,
                        plist@[i + 1]@,
                    ));
                }
                i = i + 2;
            }
        },
    }
    let elements: Value = Value::list(attrs);
    Ok(Value::Vector(Box::new(elements)))
}

/// A vector of attributes has one element for the face and one for each attribute.
pub proof fn law_attributes_vector_length(attrs: Seq<Lisp>, plist: Seq<Lisp>)
    requires
        attrs.len() == 20,
    ensures
        with_attributes(attrs, plist).len() == 20,
    decreases plist.len(),
{
    if plist.len() >= 2 {
        law_attributes_vector_length(with_attribute(attrs, plist[0], plist[1]), plist.skip(2));
    }
}

/// An entry of a hash table, in order of insertion: a key that is there keeps its
/// place and gets the value, another one comes last.
pub open spec fn entries_put(l: Lisp, key: Lisp, value: Lisp) -> Lisp
    decreases l,
{
    match l {
        Lisp::Cons(e, rest) => if crate::value::car(*e) == key {
            cons(cons(key, value), *rest)
        } else {
            cons(*e, entries_put(*rest, key, value))
        },
        _ => list1(cons(key, value)),
    }
}

/// The value of a key among the entries of a hash table.
pub open spec fn entries_get(l: Lisp, key: Lisp) -> Option<Lisp>
    decreases l,
{
    match l {
        Lisp::Cons(e, rest) => if crate::value::car(*e) == key {
            Some(crate::value::cdr(*e))
        } else {
            entries_get(*rest, key)
        },
        _ => None,
    }
}

/// What was put into a hash table is read back.
pub proof fn law_entries_put(l: Lisp, key: Lisp, value: Lisp)
    ensures
        entries_get(entries_put(l, key, value), key) == Some(value),
    decreases l,
{
    reveal_with_fuel(entries_get, 2);
    match l {
        Lisp::Cons(e, rest) => {
            law_entries_put(*rest, key, value);
        },
        _ => {},
    }
}

/// Putting a key into a hash table changes no other one.
pub proof fn law_entries_put_keeps_others(l: Lisp, key: Lisp, value: Lisp, other: Lisp)
    requires
        key != other,
    ensures
        entries_get(entries_put(l, key, value), other) == entries_get(l, other),
    decreases l,
{
    reveal_with_fuel(entries_get, 2);
    match l {
        Lisp::Cons(e, rest) => {
            law_entries_put_keeps_others(*rest, key, value, other);
        },
        _ => {},
    }
}

/// Puts an entry into a hash table.
fn put_entry(l: &Value, key: &Value, value: &Value) -> (r: Value)
    ensures
        r@ == entries_put(l@, key@, value@),
    decreases l,
{
    match l {
        Value::Cons(e, rest) => if e.car().same(key) {
            Value::cons(Value::cons(key.copy(), value.copy()), rest.copy())
        } else {
            Value::cons(e.copy(), put_entry(rest, key, value))
        },
        _ => Value::list1(Value::cons(key.copy(), value.copy())),
    }
}

/// The names of the faces that every session has, by their numbers.
pub open spec fn face_names() -> Seq<Seq<char>> {
    seq![
        "default"@,
        "mode-line"@,
        "mode-line-inactive"@,
        "tool-bar"@,
        "fringe"@,
        "header-line"@,
        "scroll-bar"@,
        "border"@,
        "cursor"@,
        "mouse"@,
        "menu"@,
        "vertical-border"@,
        "window-divider"@,
        "window-divider-first-pixel"@,
        "window-divider-last-pixel"@,
        "internal-border"@,
        "child-frame-border"@,
        "tab-bar"@,
        "tab-line"@,
        "bold"@,
        "italic"@,
        "bold-italic"@,
        "underline"@,
        "fixed-pitch"@,
        "variable-pitch"@,
        "region"@,
        "minibuffer-prompt"@,
        "link"@,
        "shadow"@,
        "highlight"@,
    ]
}

/// The names of the faces that every session has, by their numbers.
fn defined_face_names() -> (r: Vec<&'static str>)
    ensures
        r@.len() == face_names().len(),
        forall|i: int| 0 <= i < r@.len() ==> (#[trigger] r@[i])@ == face_names()[i],
{
    let names: Vec<&'static str> = vec![
        "default",
        "mode-line",
        "mode-line-inactive",
        "tool-bar",
        "fringe",
        "header-line",
        "scroll-bar",
        "border",
        "cursor",
        "mouse",
        "menu",
        "vertical-border",
        "window-divider",
        "window-divider-first-pixel",
        "window-divider-last-pixel",
        "internal-border",
        "child-frame-border",
        "tab-bar",
        "tab-line",
        "bold",
        "italic",
        "bold-italic",
        "underline",
        "fixed-pitch",
        "variable-pitch",
        "region",
        "minibuffer-prompt",
        "link",
        "shadow",
        "highlight",
    ];
    names
}

/// The vector of a face that specifies no attribute.
pub open spec fn lisp_face_vector() -> Lisp {
    Lisp::Vector(Box::new(list_of(unspecified().update(0, sym("face"@)))))
}

/// The vector of a face that specifies no attribute.
fn make_lisp_face_vector() -> (r: Value)
    ensures
        r@ == lisp_face_vector(),
{
    let mut attrs: Vec<Value> = no_attributes();
    let ghost before = views(attrs@);
    let v: Value = Value::symbol("face");
    let ghost x = v@;
    attrs.set(0, v);
    proof {
        assert(views(attrs@) =~= before.update(0, x));
    }
    let elements: Value = Value::list(attrs);
    Value::Vector(Box::new(elements))
}

/// What the table of defaults for new frames has for the face with a number.
pub open spec fn default_entry(id: int) -> Lisp {
    cons(Lisp::Int(id as i64), lisp_face_vector())
}

/// The entries of the table of defaults for new frames, with those of the last `n`
/// faces put in, the last face first.
pub open spec fn seeded_entries(l: Lisp, n: int) -> Lisp
    decreases n,
{
    if n <= 0 || n > face_names().len() {
        l
    } else {
        let id = face_names().len() - n;
        entries_put(seeded_entries(l, n - 1), sym(face_names()[id]), default_entry(id))
    }
}

/// The entries of the table of defaults for new frames, with every face put in.
fn seed_face_new_frame_defaults(entries: &Value) -> (r: Value)
    ensures
        r@ == seeded_entries(entries@, face_names().len() as int),
{
    let names: Vec<&'static str> = defined_face_names();
    let mut out: Value = entries.copy();
    let mut id: usize = names.len();
    while id > 0
        invariant
            id <= names.len(),
            names@.len() == face_names().len(),
            forall|i: int| 0 <= i < names@.len() ==> (#[trigger] names@[i])@ == face_names()[i],
            names.len() <= 64,
            out@ == seeded_entries(entries@, names.len() - id),
        decreases id,
    {
        id = id - 1;
        let value: Value = Value::cons(Value::Int(id as i64), make_lisp_face_vector());
        out = put_entry(&out, &Value::symbol(names[id]), &value);
    }
    out
}

/// The number of a face.
pub open spec fn face_number(names: Seq<Seq<char>>, name: Seq<char>) -> Option<int>
    decreases names.len(),
{
    if names.len() == 0 {
        None
    } else if names.last() == name {
        Some(names.len() - 1)
    } else {
        face_number(names.drop_last(), name)
    }
}

/// The number of a face.
fn face_id_for_name(name: &str) -> (r: Option<usize>)
    ensures
        match r {
            Some(i) => face_number(face_names(), name@) == Some(i as int),
            None => face_number(face_names(), name@) is None,
        },
{
    let names: Vec<&'static str> = defined_face_names();
    let ghost all = face_names();
    let mut n: usize = names.len();
    proof {
        assert(all.take(n as int) =~= all);
    }
    while n > 0
        invariant
            n <= names.len(),
            all == face_names(),
            names@.len() == all.len(),
            forall|i: int| 0 <= i < names@.len() ==> (#[trigger] names@[i])@ == all[i],
            face_number(all.take(n as int), name@) == face_number(all, name@),
        decreases n,
    {
        proof {
            assert(all.take(n as int).last() == names@[n - 1]@);
            assert(all.take(n as int).drop_last() =~= all.take(n - 1));
        }
        if str_eq(names[n - 1], name) {
            return Some(n - 1);
        }
        n = n - 1;
    }
    None
}

/// The table of defaults for new frames that a session starts with, whose keys are
/// compared by `eq`.
pub open spec fn new_frame_defaults() -> Lisp {
    Lisp::HashTable(
        HashTableTest::Eq,
        Box::new(seeded_entries(Lisp::Nil, face_names().len() as int)),
    )
}

/// The table of defaults for new frames that a session starts with.
fn bootstrap_face_new_frame_defaults_table() -> (r: Value)
    ensures
        r@ == new_frame_defaults(),
{
    let entries: Value = seed_face_new_frame_defaults(&Value::Nil);
    Value::HashTable(HashTableTest::Eq, Box::new(entries))
}

/// The variables about faces with their first values.
pub open spec fn with_face_vars(s: Symbols) -> Symbols {
    s.bind("face-filters-always-match"@, Lisp::Nil).bind(
        "face--new-frame-defaults"@,
        new_frame_defaults(),
    ).bind("face-default-stipple"@, lstr("gray3"@)).bind(
        "tty-defined-color-alist"@,
        Lisp::Nil,
    ).bind("scalable-fonts-allowed"@, Lisp::Nil).bind("face-ignored-fonts"@, Lisp::Nil).bind(
        "face-remapping-alist"@,
        Lisp::Nil,
    ).bind("face-font-rescale-alist"@, Lisp::Nil).bind(
        "face-near-same-color-threshold"@,
        Lisp::Int(30_000),
    ).bind("face-font-lax-matched-attributes"@, Lisp::True)
}

/// Gives the variables about faces their first values.
pub fn register_bootstrap_vars(obarray: &mut Obarray)
    ensures
        final(obarray)@ == with_face_vars(old(obarray)@),
{
    obarray.set_symbol_value("face-filters-always-match", Value::Nil);
    obarray.set_symbol_value(
        "face--new-frame-defaults",
        bootstrap_face_new_frame_defaults_table(),
    );
    obarray.set_symbol_value("face-default-stipple", Value::string("gray3"));
    obarray.set_symbol_value("tty-defined-color-alist", Value::Nil);
    obarray.set_symbol_value("scalable-fonts-allowed", Value::Nil);
    obarray.set_symbol_value("face-ignored-fonts", Value::Nil);
    obarray.set_symbol_value("face-remapping-alist", Value::Nil);
    obarray.set_symbol_value("face-font-rescale-alist", Value::Nil);
    obarray.set_symbol_value("face-near-same-color-threshold", Value::Int(30_000));
    obarray.set_symbol_value("face-font-lax-matched-attributes", Value::True);
}

impl Symbols {
    /// The symbols with a value for one that has none.
    pub open spec fn backfilled(self, name: Seq<char>, value: Lisp) -> Symbols {
        if self.value(name) is None {
            self.bind(name, value)
        } else {
            self
        }
    }
}

/// Gives a symbol that has no value one.
fn backfill(obarray: &mut Obarray, name: &str, value: Value)
    ensures
        final(obarray)@ == old(obarray)@.backfilled(name@, value@),
{
    if obarray.symbol_value(name).is_none() {
        obarray.set_symbol_value(name, value);
    }
}

/// The variables about faces, those that had no value with their first ones.
pub open spec fn with_missing_face_vars(s: Symbols) -> Symbols {
    s.backfilled("face-filters-always-match"@, Lisp::Nil).backfilled(
        "face--new-frame-defaults"@,
        new_frame_defaults(),
    ).backfilled("face-default-stipple"@, lstr("gray3"@)).backfilled(
        "scalable-fonts-allowed"@,
        Lisp::Nil,
    ).backfilled("face-ignored-fonts"@, Lisp::Nil).backfilled(
        "face-remapping-alist"@,
        Lisp::Nil,
    ).backfilled("face-font-rescale-alist"@, Lisp::Nil).backfilled(
        "face-near-same-color-threshold"@,
        Lisp::Int(30_000),
    ).backfilled("face-font-lax-matched-attributes"@, Lisp::True)
}

/// Gives the variables about faces that have no value their first ones.
pub fn ensure_startup_compat_variables(obarray: &mut Obarray)
    ensures
        final(obarray)@ == with_missing_face_vars(old(obarray)@),
{
    backfill(obarray, "face-filters-always-match", Value::Nil);
    backfill(
        obarray,
        "face--new-frame-defaults",
        bootstrap_face_new_frame_defaults_table(),
    );
    backfill(obarray, "face-default-stipple", Value::string("gray3"));
    backfill(obarray, "scalable-fonts-allowed", Value::Nil);
    backfill(obarray, "face-ignored-fonts", Value::Nil);
    backfill(obarray, "face-remapping-alist", Value::Nil);
    backfill(obarray, "face-font-rescale-alist", Value::Nil);
    backfill(obarray, "face-near-same-color-threshold", Value::Int(30_000));
    backfill(obarray, "face-font-lax-matched-attributes", Value::True);
}

/// The table of the faces of a frame, in the order in which they came. Its keys are
/// compared by `eq`.
pub open spec fn face_table(faces: Seq<(Seq<char>, Lisp)>) -> Lisp {
    Lisp::HashTable(
        HashTableTest::Eq,
        Box::new(list_of(Seq::new(faces.len(), |i: int| cons(sym(faces[i].0), faces[i].1)))),
    )
}

/// The table of the faces of a frame.
fn frame_face_table(f: &Frame) -> (r: Value)
    ensures
        r@ == face_table(f@.faces),
{
    let mut out: Vec<Value> = Vec::new();
    let ghost want = Seq::new(
        f@.faces.len(),
        |i: int| cons(sym(f@.faces[i].0), f@.faces[i].1),
    );
    let mut i: usize = 0;
    while i < f.faces.entries.len()
        invariant
            i <= f.faces.entries.len(),
            f@.faces.len() == f.faces.entries.len(),
            want == Seq::new(
                f@.faces.len(),
                |i: int| cons(sym(f@.faces[i].0), f@.faces[i].1),
            ),
            views(out@) == want.take(i as int),
        decreases f.faces.entries.len() - i,
    {
        let e: Value = Value::cons(
            Value::symbol(f.faces.entries[i].0.as_str()),
            f.faces.entries[i].1.copy(),
        );
        let ghost before = out@;
        let ghost x = e@;
        proof {
            assert(want.take(i + 1) =~= want.take(i as int).push(x));
        }
        out.push(e);
        proof {
            assert(views(out@) =~= views(before).push(x));
        }
        i = i + 1;
    }
    proof {
        assert(want.take(i as int) =~= want);
    }
    let entries: Value = Value::list(out);
    Value::HashTable(HashTableTest::Eq, Box::new(entries))
}

/// `(frame--face-hash-table &optional FRAME)`
pub open spec fn frame_face_hash_table(st: UiState, args: Seq<Lisp>) -> Step {
    with_arity(
        st,
        "frame--face-hash-table"@,
        args,
        0,
        1,
        match frame_arg(st, arg(args, 0), "frame-live-p"@) {
            Found::Signal(o) => ends(after(st, arg(args, 0)), o),
            Found::Is(id) => gives(
                after(st, arg(args, 0)),
                match after(st, arg(args, 0)).frames.get(id) {
                    Some(f) => face_table(f.faces),
                    None => Lisp::HashTable(HashTableTest::Eq, Box::new(Lisp::Nil)),
                },
            ),
        },
    )
}

/// `(frame--face-hash-table &optional FRAME)` -> the table of the faces of FRAME.
pub fn builtin_frame_face_hash_table(ui: &mut Ui, args: &Vec<Value>) -> (r: EvalResult)
    ensures
        final(ui)@ == frame_face_hash_table(old(ui)@, views(args@)).state,
        outcome(r) == frame_face_hash_table(old(ui)@, views(args@)).end,
{
    expect_args_range("frame--face-hash-table", args, 0, 1)?;
    let id: u64 = resolve_frame_id(ui, &arg_or_nil(args, 0), "frame-live-p")?;
    match ui.frames.get(id) {
        Some(f) => Ok(frame_face_table(f)),
        None => {
            let none: Value = Value::Nil;
            proof {
                assert(none@ == Lisp::Nil);
            }
            Ok(Value::HashTable(HashTableTest::Eq, Box::new(none)))
        },
    }
}

/// Keeps what a face is on a frame, given by the vector of its attributes.
pub fn mirror_runtime_face_into_frame(frame: &mut Frame, face_name: &str, face: Value)
    ensures
        final(frame)@ == (FrameState {
            faces: with_entry(old(frame)@.faces, face_name@, face@),
            ..old(frame)@
        }),
{
    frame.set_realized_face(face_name, face);
}

/// A face that was kept on a frame is read back, and no other one changes.
pub proof fn law_mirrored_face_is_read_back(
    faces: Seq<(Seq<char>, Lisp)>,
    name: Seq<char>,
    face: Lisp,
    other: Seq<char>,
)
    ensures
        entry(with_entry(faces, name, face), name) == Some(face),
        other != name ==> entry(with_entry(faces, name, face), other) == entry(faces, other),
{
    crate::table::law_entry_set(faces, name, face);
    if other != name {
        crate::table::law_entry_set_keeps_others(faces, name, face, other);
    }
}

/// The table of defaults for new frames with every face put in, and a face put in
/// again; nothing of the last where there is no such face.
pub open spec fn defaults_ensured(s: Symbols, name: Seq<char>) -> (Symbols, Option<Lisp>) {
    match s.value("face--new-frame-defaults"@) {
        Some(Lisp::HashTable(test, entries)) => {
            let seeded = seeded_entries(*entries, face_names().len() as int);
            match face_number(face_names(), name) {
                Some(id) => {
                    let table = Lisp::HashTable(
                        test,
                        Box::new(entries_put(seeded, sym(name), default_entry(id))),
                    );
                    (s.bind("face--new-frame-defaults"@, table), Some(table))
                },
                None => (
                    s.bind(
                        "face--new-frame-defaults"@,
                        Lisp::HashTable(test, Box::new(seeded)),
                    ),
                    None,
                ),
            }
        },
        _ => (s, None),
    }
}

/// Puts every face into the table of defaults for new frames, and one again, and
/// gives the table.
pub fn ensure_face_new_frame_defaults_entry(obarray: &mut Obarray, face_name: &str) -> (r: Option<
    Value,
>)
    ensures
        final(obarray)@ == defaults_ensured(old(obarray)@, face_name@).0,
        crate::xdisp::percent::opt_view(r) == defaults_ensured(old(obarray)@, face_name@).1,
{
    let value: Value = match obarray.symbol_value("face--new-frame-defaults") {
        Some(v) => v,
        None => {
            return None;
        },
    };
    match &value {
        Value::HashTable(test, entries) => {
            let seeded: Value = seed_face_new_frame_defaults(entries);
            match face_id_for_name(face_name) {
                Some(id) => {
                    let default: Value = Value::cons(
                        Value::Int(id as i64),
                        make_lisp_face_vector(),
                    );
                    let all: Value = put_entry(&seeded, &Value::symbol(face_name), &default);
                    let table: Value = Value::HashTable(*test, Box::new(all));
                    obarray.set_symbol_value("face--new-frame-defaults", table.copy());
                    Some(table)
                },
                None => {
                    obarray.set_symbol_value(
                        "face--new-frame-defaults",
                        Value::HashTable(*test, Box::new(seeded)),
                    );
                    None
                },
            }
        },
        _ => None,
    }
}

} // verus!
