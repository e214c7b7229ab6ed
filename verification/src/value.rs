//! Lisp values, and the signals that builtins raise.
use crate::lisp_string::{LispString, LispText};
use crate::storage::{runtime_string_from_lisp_string, string_storage};
use crate::text::{copy_bytes, str_eq};
use vstd::prelude::*;
use vstd::utf8::{encode_utf8, is_ascii_chars};

verus! {

/// How the keys of a hash table are compared.
#[derive(Debug, Clone, Copy, PartialEq, Eq, Structural)]
pub enum HashTableTest {
    Eq,
    Eql,
    Equal,
}

/// What a Lisp value is.
///
/// A float is given by the bits of its IEEE 754 double, a string by its text and
/// the list of its text property runs `(START END PLIST)`, a vector by the list
/// of its elements, a hash table by how its keys are compared and the list of its
/// `(KEY . VALUE)` entries, a character table by the list of its subtype, its default, its extra slots and
/// its `(CHARACTER . VALUE)` entries, a marker by the name of its buffer and its position.
pub enum Lisp {
    Nil,
    True,
    Int(i64),
    Float(u64),
    Symbol(Seq<char>),
    Str(LispText, Box<Lisp>),
    Cons(Box<Lisp>, Box<Lisp>),
    Vector(Box<Lisp>),
    HashTable(HashTableTest, Box<Lisp>),
    CharTable(Box<Lisp>),
    Marker(Option<Seq<char>>, Option<i64>),
    Window(u64),
    Frame(u64),
    Buffer(u64),
}

/// A Lisp value.
#[derive(Debug, PartialEq, Eq)]
pub enum Value {
    Nil,
    True,
    Int(i64),
    Float(u64),
    Symbol(String),
    Str(LispString, Box<Value>),
    Cons(Box<Value>, Box<Value>),
    Vector(Box<Value>),
    HashTable(HashTableTest, Box<Value>),
    CharTable(Box<Value>),
    Marker(Option<String>, Option<i64>),
    Window(u64),
    Frame(u64),
    Buffer(u64),
}

/// The characters of a string that may be missing.
pub open spec fn opt_text(s: Option<String>) -> Option<Seq<char>> {
    match s {
        Some(t) => Some(t@),
        None => None,
    }
}

impl Value {
    /// What the value is.
    pub open spec fn lisp(self) -> Lisp
        decreases self,
    {
        match self {
            Value::Nil => Lisp::Nil,
            Value::True => Lisp::True,
            Value::Int(n) => Lisp::Int(n),
            Value::Float(b) => Lisp::Float(b),
            Value::Symbol(s) => Lisp::Symbol(s@),
            Value::Str(s, p) => Lisp::Str(s@, Box::new(p.lisp())),
            Value::Cons(a, d) => Lisp::Cons(Box::new(a.lisp()), Box::new(d.lisp())),
            Value::Vector(l) => Lisp::Vector(Box::new(l.lisp())),
            Value::HashTable(t, l) => Lisp::HashTable(t, Box::new(l.lisp())),
            Value::CharTable(l) => Lisp::CharTable(Box::new(l.lisp())),
            Value::Marker(b, p) => Lisp::Marker(opt_text(b), p),
            Value::Window(id) => Lisp::Window(id),
            Value::Frame(id) => Lisp::Frame(id),
            Value::Buffer(id) => Lisp::Buffer(id),
        }
    }
}

impl View for Value {
    type V = Lisp;

    open spec fn view(&self) -> Lisp {
        self.lisp()
    }
}

/// What each of some values is.
pub open spec fn views(s: Seq<Value>) -> Seq<Lisp> {
    Seq::new(s.len(), |i: int| s[i]@)
}

/// The symbol with the given name; `nil` and `t` are values of their own.
pub open spec fn sym(name: Seq<char>) -> Lisp {
    if name == "nil"@ {
        Lisp::Nil
    } else if name == "t"@ {
        Lisp::True
    } else {
        Lisp::Symbol(name)
    }
}

/// A pair.
pub open spec fn cons(a: Lisp, d: Lisp) -> Lisp {
    Lisp::Cons(Box::new(a), Box::new(d))
}

/// A list of one element.
pub open spec fn list1(a: Lisp) -> Lisp {
    cons(a, Lisp::Nil)
}

/// A list of two elements.
pub open spec fn list2(a: Lisp, b: Lisp) -> Lisp {
    cons(a, list1(b))
}

/// A list of three elements.
pub open spec fn list3(a: Lisp, b: Lisp, c: Lisp) -> Lisp {
    cons(a, list2(b, c))
}

/// A list of four elements.
pub open spec fn list4(a: Lisp, b: Lisp, c: Lisp, d: Lisp) -> Lisp {
    cons(a, list3(b, c, d))
}

/// The list of the given elements.
pub open spec fn list_of(s: Seq<Lisp>) -> Lisp
    decreases s.len(),
{
    if s.len() == 0 {
        Lisp::Nil
    } else {
        cons(s[0], list_of(s.drop_first()))
    }
}

/// The elements of a proper list; nothing for any other value.
pub open spec fn list_items(l: Lisp) -> Option<Seq<Lisp>>
    decreases l,
{
    match l {
        Lisp::Nil => Some(Seq::empty()),
        Lisp::Cons(a, d) => match list_items(*d) {
            Some(rest) => Some(seq![*a] + rest),
            None => None,
        },
        _ => None,
    }
}

/// What the text of a string literal is as a Lisp string: multibyte where it is not all ASCII.
pub open spec fn plain_text(s: Seq<char>) -> LispText {
    LispText { bytes: encode_utf8(s), multibyte: !is_ascii_chars(s) }
}

/// A string without text properties.
pub open spec fn lstr(s: Seq<char>) -> Lisp {
    Lisp::Str(plain_text(s), Box::new(Lisp::Nil))
}

/// `t` for true, `nil` for false.
pub open spec fn lbool(b: bool) -> Lisp {
    if b {
        Lisp::True
    } else {
        Lisp::Nil
    }
}

/// The text of a string value.
pub open spec fn str_chars(v: Lisp) -> Option<Seq<char>> {
    match v {
        Lisp::Str(text, _) => Some(string_storage(text)),
        _ => None,
    }
}

/// The name of a symbol value.
pub open spec fn symbol_name(v: Lisp) -> Option<Seq<char>> {
    match v {
        Lisp::Nil => Some("nil"@),
        Lisp::True => Some("t"@),
        Lisp::Symbol(s) => Some(s),
        _ => None,
    }
}

impl Value {
    /// The symbol with the given name.
    pub fn symbol(name: &str) -> (r: Value)
        ensures
            r@ == sym(name@),
    {
        if str_eq(name, "nil") {
            Value::Nil
        } else if str_eq(name, "t") {
            Value::True
        } else {
            Value::Symbol(name.to_owned())
        }
    }

    /// A string without text properties.
    pub fn string(s: &str) -> (r: Value)
        ensures
            r@ == lstr(s@),
    {
        Value::heap_string(
            LispString { data: copy_bytes(s.as_bytes()), multibyte: !s.is_ascii() },
        )
    }

    /// A string with the given contents and no text properties.
    pub fn heap_string(s: LispString) -> (r: Value)
        ensures
            r@ == Lisp::Str(s@, Box::new(Lisp::Nil)),
    {
        let props: Value = Value::Nil;
        proof {
            assert(props@ == Lisp::Nil);
        }
        Value::Str(s, Box::new(props))
    }

    /// An integer.
    pub fn fixnum(n: i64) -> (r: Value)
        ensures
            r@ == Lisp::Int(n),
    {
        Value::Int(n)
    }

    /// A character, which is the integer of its code.
    pub fn character(c: char) -> (r: Value)
        ensures
            r@ == Lisp::Int(c as u32 as i64),
    {
        Value::Int(c as u32 as i64)
    }

    /// `t` for true, `nil` for false.
    pub fn bool_val(b: bool) -> (r: Value)
        ensures
            r@ == lbool(b),
    {
        if b {
            Value::True
        } else {
            Value::Nil
        }
    }

    /// A pair.
    pub fn cons(a: Value, d: Value) -> (r: Value)
        ensures
            r@ == cons(a@, d@),
    {
        Value::Cons(Box::new(a), Box::new(d))
    }

    /// A list of one element.
    pub fn list1(a: Value) -> (r: Value)
        ensures
            r@ == list1(a@),
    {
        Value::cons(a, Value::Nil)
    }

    /// A list of two elements.
    pub fn list2(a: Value, b: Value) -> (r: Value)
        ensures
            r@ == list2(a@, b@),
    {
        Value::cons(a, Value::list1(b))
    }

    /// A list of three elements.
    pub fn list3(a: Value, b: Value, c: Value) -> (r: Value)
        ensures
            r@ == list3(a@, b@, c@),
    {
        Value::cons(a, Value::list2(b, c))
    }

    /// A list of four elements.
    pub fn list4(a: Value, b: Value, c: Value, d: Value) -> (r: Value)
        ensures
            r@ == list4(a@, b@, c@, d@),
    {
        Value::cons(a, Value::list3(b, c, d))
    }

    /// The list of the given elements.
    pub fn list(items: Vec<Value>) -> (r: Value)
        ensures
            r@ == list_of(views(items@)),
    {
        let mut out: Value = Value::Nil;
        let mut items: Vec<Value> = items;
        let ghost all = views(items@);
        let ghost whole = items@;
        proof {
            assert(all.skip(all.len() as int) =~= Seq::<Lisp>::empty());
        }
        while items.len() > 0
            invariant
                all == views(whole),
                items@ == whole.take(items@.len() as int),
                items@.len() <= whole.len(),
                out@ == list_of(all.skip(items@.len() as int)),
            decreases items.len(),
        {
            let ghost n = items@.len();
            match items.pop() {
                Some(v) => {
                    proof {
                        let tail = all.skip(n - 1);
                        assert(tail[0] == v@);
                        assert(tail.drop_first() =~= all.skip(n as int));
                        assert(whole.take(n as int).drop_last() =~= whole.take(n - 1));
                    }
                    out = Value::cons(v, out);
                },
                None => {},
            }
        }
        proof {
            assert(all.skip(0) =~= all);
        }
        out
    }

    /// Whether the value is `nil`.
    pub fn is_nil(&self) -> (r: bool)
        ensures
            r == (self@ == Lisp::Nil),
    {
        match self {
            Value::Nil => true,
            _ => false,
        }
    }

    /// Whether the value is not `nil`.
    pub fn is_truthy(&self) -> (r: bool)
        ensures
            r == (self@ != Lisp::Nil),
    {
        !self.is_nil()
    }

    /// Whether the value is `t`.
    pub fn is_t(&self) -> (r: bool)
        ensures
            r == (self@ == Lisp::True),
    {
        match self {
            Value::True => true,
            _ => false,
        }
    }

    /// Whether the value is a string.
    pub fn is_string(&self) -> (r: bool)
        ensures
            r == self@ is Str,
    {
        match self {
            Value::Str(_, _) => true,
            _ => false,
        }
    }

    /// Whether the value is a pair.
    pub fn is_cons(&self) -> (r: bool)
        ensures
            r == self@ is Cons,
    {
        match self {
            Value::Cons(_, _) => true,
            _ => false,
        }
    }

    /// Whether the value is a buffer.
    pub fn is_buffer(&self) -> (r: bool)
        ensures
            r == self@ is Buffer,
    {
        match self {
            Value::Buffer(_) => true,
            _ => false,
        }
    }

    /// The integer that the value is.
    pub fn as_int(&self) -> (r: Option<i64>)
        ensures
            r == int_of(self@),
    {
        match self {
            Value::Int(n) => Some(*n),
            _ => None,
        }
    }

    /// The buffer that the value is.
    pub fn as_buffer_id(&self) -> (r: Option<u64>)
        ensures
            r == buffer_of(self@),
    {
        match self {
            Value::Buffer(id) => Some(*id),
            _ => None,
        }
    }

    /// The name of the symbol that the value is.
    pub fn as_symbol_name(&self) -> (r: Option<String>)
        ensures
            opt_text(r) == symbol_name(self@),
    {
        match self {
            Value::Nil => Some("nil".to_owned()),
            Value::True => Some("t".to_owned()),
            Value::Symbol(s) => Some(s.clone()),
            _ => None,
        }
    }

    /// Whether the value is the symbol with the given name.
    pub fn is_symbol_named(&self, name: &str) -> (r: bool)
        ensures
            r == (symbol_name(self@) == Some(name@)),
    {
        match self.as_symbol_name() {
            Some(s) => str_eq(s.as_str(), name),
            None => false,
        }
    }

    /// The contents of the string that the value is.
    pub fn as_lisp_string(&self) -> (r: Option<LispString>)
        ensures
            match r {
                Some(s) => self@ matches Lisp::Str(text, _) && s@ == text,
                None => !(self@ is Str),
            },
    {
        match self {
            Value::Str(s, _) => Some(s.copy()),
            _ => None,
        }
    }

    /// The text of the string that the value is.
    pub fn as_runtime_string(&self) -> (r: Option<Vec<char>>)
        ensures
            match r {
                Some(v) => str_chars(self@) == Some(v@),
                None => str_chars(self@) is None,
            },
    {
        match self {
            Value::Str(s, _) => Some(runtime_string_from_lisp_string(s)),
            _ => None,
        }
    }

    /// The first part of a pair, `nil` for any other value.
    pub fn car(&self) -> (r: Value)
        ensures
            r@ == car(self@),
    {
        match self {
            Value::Cons(a, _) => a.copy(),
            _ => Value::Nil,
        }
    }

    /// The second part of a pair, `nil` for any other value.
    pub fn cdr(&self) -> (r: Value)
        ensures
            r@ == cdr(self@),
    {
        match self {
            Value::Cons(_, d) => d.copy(),
            _ => Value::Nil,
        }
    }

    /// A copy of the value.
    pub fn copy(&self) -> (r: Value)
        ensures
            r@ == self@,
        decreases self,
    {
        match self {
            Value::Nil => Value::Nil,
            Value::True => Value::True,
            Value::Int(n) => Value::Int(*n),
            Value::Float(b) => Value::Float(*b),
            Value::Symbol(s) => Value::Symbol(s.clone()),
            Value::Str(s, p) => Value::Str(s.copy(), Box::new(p.copy())),
            Value::Cons(a, d) => Value::Cons(Box::new(a.copy()), Box::new(d.copy())),
            Value::Vector(l) => Value::Vector(Box::new(l.copy())),
            Value::HashTable(t, l) => Value::HashTable(*t, Box::new(l.copy())),
            Value::CharTable(l) => Value::CharTable(Box::new(l.copy())),
            Value::Marker(b, p) => Value::Marker(copy_name(b), *p),
            Value::Window(id) => Value::Window(*id),
            Value::Frame(id) => Value::Frame(*id),
            Value::Buffer(id) => Value::Buffer(*id),
        }
    }

    /// Whether two values are the same.
    pub fn same(&self, other: &Value) -> (r: bool)
        ensures
            r == (self@ == other@),
        decreases self,
    {
        match (self, other) {
            (Value::Nil, Value::Nil) => true,
            (Value::True, Value::True) => true,
            (Value::Int(a), Value::Int(b)) => *a == *b,
            (Value::Float(a), Value::Float(b)) => *a == *b,
            (Value::Symbol(a), Value::Symbol(b)) => *a == *b,
            (Value::Str(a, p), Value::Str(b, q)) => a.same(b) && p.same(q),
            (Value::Cons(a, b), Value::Cons(c, d)) => a.same(c) && b.same(d),
            (Value::Vector(a), Value::Vector(b)) => a.same(b),
            (Value::HashTable(t, a), Value::HashTable(u, b)) => *t == *u && a.same(b),
            (Value::CharTable(a), Value::CharTable(b)) => a.same(b),
            (Value::Marker(a, p), Value::Marker(b, q)) => same_name(a, b) && same_position(p, q),
            (Value::Window(a), Value::Window(b)) => *a == *b,
            (Value::Frame(a), Value::Frame(b)) => *a == *b,
            (Value::Buffer(a), Value::Buffer(b)) => *a == *b,
            _ => false,
        }
    }
}

/// A copy of a name that may be missing.
fn copy_name(s: &Option<String>) -> (r: Option<String>)
    ensures
        opt_text(r) == opt_text(*s),
{
    match s {
        Some(t) => Some(t.clone()),
        None => None,
    }
}

/// Whether two names that may be missing are the same.
fn same_name(a: &Option<String>, b: &Option<String>) -> (r: bool)
    ensures
        r == (opt_text(*a) == opt_text(*b)),
{
    match (a, b) {
        (Some(x), Some(y)) => *x == *y,
        (None, None) => true,
        _ => false,
    }
}

/// Whether two positions that may be missing are the same.
fn same_position(a: &Option<i64>, b: &Option<i64>) -> (r: bool)
    ensures
        r == (*a == *b),
{
    match (a, b) {
        (Some(x), Some(y)) => *x == *y,
        (None, None) => true,
        _ => false,
    }
}

/// The first part of a pair, `nil` for any other value.
pub open spec fn car(v: Lisp) -> Lisp {
    match v {
        Lisp::Cons(a, _) => *a,
        _ => Lisp::Nil,
    }
}

/// The second part of a pair, `nil` for any other value.
pub open spec fn cdr(v: Lisp) -> Lisp {
    match v {
        Lisp::Cons(_, d) => *d,
        _ => Lisp::Nil,
    }
}

/// The integer that a value is.
pub open spec fn int_of(v: Lisp) -> Option<i64> {
    match v {
        Lisp::Int(n) => Some(n),
        _ => None,
    }
}

/// The buffer that a value is.
pub open spec fn buffer_of(v: Lisp) -> Option<u64> {
    match v {
        Lisp::Buffer(id) => Some(id),
        _ => None,
    }
}

/// The elements of a proper list; nothing for any other value.
pub fn list_to_vec(v: &Value) -> (r: Option<Vec<Value>>)
    ensures
        match r {
            Some(items) => list_items(v@) == Some(views(items@)),
            None => list_items(v@) is None,
        },
    decreases v,
{
    match v {
        Value::Nil => {
            let items: Vec<Value> = Vec::new();
            proof {
                assert(views(items@) =~= Seq::<Lisp>::empty());
            }
            Some(items)
        },
        Value::Cons(a, d) => match list_to_vec(d) {
            Some(rest) => {
                let mut items: Vec<Value> = Vec::new();
                let mut rest: Vec<Value> = rest;
                let ghost tail = rest@;
                items.push(a.copy());
                items.append(&mut rest);
                proof {
                    assert(views(items@) =~= seq![a@] + views(tail));
                }
                Some(items)
            },
            None => None,
        },
        _ => None,
    }
}

/// Reading the list of some elements gives the elements back.
pub proof fn law_list_items_of_list(s: Seq<Lisp>)
    ensures
        list_items(list_of(s)) == Some(s),
    decreases s.len(),
{
    if s.len() > 0 {
        law_list_items_of_list(s.drop_first());
        assert(seq![s[0]] + s.drop_first() =~= s);
    } else {
        assert(s =~= Seq::<Lisp>::empty());
    }
}

/// What a builtin raises in place of a value.
#[derive(Debug, PartialEq, Eq)]
pub enum Flow {
    Signal(SignalData),
}

/// A signal: its symbol and the list of its data.
#[derive(Debug, PartialEq, Eq)]
pub struct SignalData {
    pub symbol: String,
    pub data: Value,
}

impl SignalData {
    /// The name of the signal's symbol.
    pub fn symbol_name(&self) -> (r: &str)
        ensures
            r@ == self.symbol@,
    {
        self.symbol.as_str()
    }
}

/// What a builtin returns.
pub type EvalResult = Result<Value, Flow>;

/// How a builtin ends: with a value, or with a signal and its data.
pub enum Outcome {
    Value(Lisp),
    Signal(Seq<char>, Lisp),
}

/// What a raised signal is.
pub open spec fn signalled(f: Flow) -> Outcome {
    match f {
        Flow::Signal(s) => Outcome::Signal(s.symbol@, s.data@),
    }
}

/// How a builtin ended.
pub open spec fn outcome(r: EvalResult) -> Outcome {
    match r {
        Ok(v) => Outcome::Value(v@),
        Err(f) => signalled(f),
    }
}

/// The signal for a value of the wrong type.
pub open spec fn wrong_type(predicate: Seq<char>, v: Lisp) -> Outcome {
    Outcome::Signal("wrong-type-argument"@, list2(sym(predicate), v))
}

/// The signal for a wrong number of arguments.
pub open spec fn wrong_number(name: Seq<char>, n: nat) -> Outcome {
    Outcome::Signal("wrong-number-of-arguments"@, list2(sym(name), Lisp::Int(n as i64)))
}

/// The generic error with the given message.
pub open spec fn error_outcome(message: Seq<char>) -> Outcome {
    Outcome::Signal("error"@, list1(lstr(message)))
}

/// Raises a signal.
pub fn signal(symbol: &str, data: Value) -> (r: Flow)
    ensures
        signalled(r) == Outcome::Signal(symbol@, data@),
{
    Flow::Signal(SignalData { symbol: symbol.to_owned(), data })
}

/// Raises the signal for a value of the wrong type.
pub fn wrong_type_argument(predicate: &str, v: &Value) -> (r: Flow)
    ensures
        signalled(r) == wrong_type(predicate@, v@),
{
    signal("wrong-type-argument", Value::list2(Value::symbol(predicate), v.copy()))
}

/// Raises the signal for a wrong number of arguments.
pub fn wrong_number_of_arguments(name: &str, n: usize) -> (r: Flow)
    ensures
        signalled(r) == wrong_number(name@, n as nat),
{
    signal("wrong-number-of-arguments", Value::list2(Value::symbol(name), Value::Int(n as i64)))
}

/// Raises the generic error with the given message.
pub fn error_signal(message: &str) -> (r: Flow)
    ensures
        signalled(r) == error_outcome(message@),
{
    signal("error", Value::list1(Value::string(message)))
}

/// Expect exactly `n` arguments.
pub fn expect_args(name: &str, args: &Vec<Value>, n: usize) -> (r: Result<(), Flow>)
    ensures
        r is Ok <==> args@.len() == n,
        r matches Err(f) ==> signalled(f) == wrong_number(name@, args@.len()),
{
    if args.len() != n {
        Err(wrong_number_of_arguments(name, args.len()))
    } else {
        Ok(())
    }
}

/// Expect at least `min` arguments.
pub fn expect_min_args(name: &str, args: &Vec<Value>, min: usize) -> (r: Result<(), Flow>)
    ensures
        r is Ok <==> args@.len() >= min,
        r matches Err(f) ==> signalled(f) == wrong_number(name@, args@.len()),
{
    if args.len() < min {
        Err(wrong_number_of_arguments(name, args.len()))
    } else {
        Ok(())
    }
}

/// Expect at most `max` arguments.
pub fn expect_max_args(name: &str, args: &Vec<Value>, max: usize) -> (r: Result<(), Flow>)
    ensures
        r is Ok <==> args@.len() <= max,
        r matches Err(f) ==> signalled(f) == wrong_number(name@, args@.len()),
{
    if args.len() > max {
        Err(wrong_number_of_arguments(name, args.len()))
    } else {
        Ok(())
    }
}

/// Expect `min` to `max` arguments.
pub fn expect_args_range(name: &str, args: &Vec<Value>, min: usize, max: usize) -> (r: Result<
    (),
    Flow,
>)
    ensures
        r is Ok <==> min <= args@.len() <= max,
        r matches Err(f) ==> signalled(f) == wrong_number(name@, args@.len()),
{
    if args.len() < min || args.len() > max {
        Err(wrong_number_of_arguments(name, args.len()))
    } else {
        Ok(())
    }
}

/// The argument at index `i`, `nil` where it was left out.
pub open spec fn arg(args: Seq<Lisp>, i: int) -> Lisp {
    if 0 <= i < args.len() {
        args[i]
    } else {
        Lisp::Nil
    }
}

/// The argument at index `i`, `nil` where it was left out.
pub fn arg_or_nil(args: &Vec<Value>, i: usize) -> (r: Value)
    ensures
        r@ == arg(views(args@), i as int),
{
    if i < args.len() {
        args[i].copy()
    } else {
        Value::Nil
    }
}

} // verus!
