//! Association lists: lists of pairs of a key and a value.
use crate::value::{cons, Lisp, Value};
use vstd::prelude::*;

verus! {

/// The value of the first pair with the given key.
pub open spec fn alist_get(l: Lisp, key: Lisp) -> Option<Lisp>
    decreases l,
{
    match l {
        Lisp::Cons(a, d) => match *a {
            Lisp::Cons(k, v) => if *k == key {
                Some(*v)
            } else {
                alist_get(*d, key)
            },
            _ => alist_get(*d, key),
        },
        _ => None,
    }
}

/// The list with another value in the first pair with the given key.
pub open spec fn alist_replaced(l: Lisp, key: Lisp, value: Lisp) -> Lisp
    decreases l,
{
    match l {
        Lisp::Cons(a, d) => match *a {
            Lisp::Cons(k, v) => if *k == key {
                cons(cons(key, value), *d)
            } else {
                cons(*a, alist_replaced(*d, key, value))
            },
            _ => cons(*a, alist_replaced(*d, key, value)),
        },
        _ => l,
    }
}

/// The list with the given value for a key: in the place of the old value, or in front.
pub open spec fn alist_put(l: Lisp, key: Lisp, value: Lisp) -> Lisp {
    if alist_get(l, key) is Some {
        alist_replaced(l, key, value)
    } else {
        cons(cons(key, value), l)
    }
}

/// After a key is put, it has the value that was put.
pub proof fn law_alist_put(l: Lisp, key: Lisp, value: Lisp)
    ensures
        alist_get(alist_put(l, key, value), key) == Some(value),
{
    if alist_get(l, key) is Some {
        lemma_replaced(l, key, value);
    }
}

proof fn lemma_replaced(l: Lisp, key: Lisp, value: Lisp)
    requires
        alist_get(l, key) is Some,
    ensures
        alist_get(alist_replaced(l, key, value), key) == Some(value),
    decreases l,
{
    match l {
        Lisp::Cons(a, d) => {
            if !(*a is Cons) || *(*a)->Cons_0 != key {
                lemma_replaced(*d, key, value);
            }
        },
        _ => {},
    }
}

/// Putting a key changes no other key.
pub proof fn law_alist_put_keeps_others(l: Lisp, key: Lisp, value: Lisp, other: Lisp)
    requires
        key != other,
    ensures
        alist_get(alist_put(l, key, value), other) == alist_get(l, other),
{
    lemma_replaced_keeps_others(l, key, value, other);
}

proof fn lemma_replaced_keeps_others(l: Lisp, key: Lisp, value: Lisp, other: Lisp)
    requires
        key != other,
    ensures
        alist_get(alist_replaced(l, key, value), other) == alist_get(l, other),
    decreases l,
{
    match l {
        Lisp::Cons(a, d) => {
            lemma_replaced_keeps_others(*d, key, value, other);
        },
        _ => {},
    }
}

/// The value of the first pair with the given key.
pub fn alist_value(l: &Value, key: &Value) -> (r: Option<Value>)
    ensures
        match r {
            Some(v) => alist_get(l@, key@) == Some(v@),
            None => alist_get(l@, key@) is None,
        },
    decreases l,
{
    proof {
        reveal_with_fuel(Value::lisp, 3);
    }
    match l {
        Value::Cons(a, d) => match &**a {
            Value::Cons(k, v) => if k.same(key) {
                Some(v.copy())
            } else {
                alist_value(d, key)
            },
            _ => alist_value(d, key),
        },
        _ => None,
    }
}

/// The list with another value in the first pair with the given key.
fn alist_replace(l: &Value, key: &Value, value: &Value) -> (r: Value)
    ensures
        r@ == alist_replaced(l@, key@, value@),
    decreases l,
{
    proof {
        reveal_with_fuel(Value::lisp, 3);
    }
    match l {
        Value::Cons(a, d) => match &**a {
            Value::Cons(k, _) => if k.same(key) {
                Value::cons(Value::cons(key.copy(), value.copy()), d.copy())
            } else {
                Value::cons(a.copy(), alist_replace(d, key, value))
            },
            _ => Value::cons(a.copy(), alist_replace(d, key, value)),
        },
        _ => l.copy(),
    }
}

/// The list with the given value for a key.
pub fn alist_set(l: &Value, key: &Value, value: &Value) -> (r: Value)
    ensures
        r@ == alist_put(l@, key@, value@),
{
    match alist_value(l, key) {
        Some(_) => alist_replace(l, key, value),
        None => Value::cons(Value::cons(key.copy(), value.copy()), l.copy()),
    }
}

} // verus!
