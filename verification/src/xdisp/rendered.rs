//! Text with properties on each of its characters, as a mode line is put together from.
use crate::lisp_string::LispString;
use crate::storage::{
    decode_storage_char_codes, runtime_string_from_lisp_string, runtime_string_to_lisp_string,
    storage_text, stored_codes, string_storage,
};
use crate::value::{car, cdr, cons, int_of, list2, list3, list_items, list_to_vec, sym, Lisp, Value};
use vstd::prelude::*;

verus! {

/// A character of a text and the property list that it has.
pub struct Mark {
    pub c: char,
    pub props: Lisp,
}

/// A character of a text and the property list that it has.
#[derive(Debug, PartialEq, Eq)]
pub struct MarkedChar {
    pub c: char,
    pub props: Value,
}

impl View for MarkedChar {
    type V = Mark;

    open spec fn view(&self) -> Mark {
        Mark { c: self.c, props: self.props@ }
    }
}

/// Text with properties, as far as it was put together.
#[derive(Debug, PartialEq, Eq)]
pub struct ModeLineRendered {
    pub chars: Vec<MarkedChar>,
}

impl View for ModeLineRendered {
    type V = Seq<Mark>;

    open spec fn view(&self) -> Seq<Mark> {
        Seq::new(self.chars@.len(), |i: int| self.chars@[i]@)
    }
}

/// The value of a property in a property list.
pub open spec fn plist_get(p: Lisp, key: Lisp) -> Option<Lisp>
    decreases p,
{
    match p {
        Lisp::Cons(k, t) => match *t {
            Lisp::Cons(v, rest) => if *k == key {
                Some(*v)
            } else {
                plist_get(*rest, key)
            },
            _ => None,
        },
        _ => None,
    }
}

/// A property list with a property set.
pub open spec fn plist_put(p: Lisp, key: Lisp, value: Lisp) -> Lisp
    decreases p,
{
    match p {
        Lisp::Cons(k, t) => match *t {
            Lisp::Cons(v, rest) => if *k == key {
                cons(*k, cons(value, *rest))
            } else {
                cons(*k, cons(*v, plist_put(*rest, key, value)))
            },
            _ => list2(key, value),
        },
        _ => list2(key, value),
    }
}

/// What was put into a property list is read back.
pub proof fn law_plist_put(p: Lisp, key: Lisp, value: Lisp)
    ensures
        plist_get(plist_put(p, key, value), key) == Some(value),
    decreases p,
{
    reveal_with_fuel(plist_get, 3);
    match p {
        Lisp::Cons(k, t) => match *t {
            Lisp::Cons(v, rest) => {
                law_plist_put(*rest, key, value);
            },
            _ => {},
        },
        _ => {},
    }
}

/// Putting a property changes no other one.
pub proof fn law_plist_put_keeps_others(p: Lisp, key: Lisp, value: Lisp, other: Lisp)
    requires
        key != other,
    ensures
        plist_get(plist_put(p, key, value), other) == plist_get(p, other),
    decreases p,
{
    reveal_with_fuel(plist_get, 3);
    match p {
        Lisp::Cons(k, t) => match *t {
            Lisp::Cons(v, rest) => {
                law_plist_put_keeps_others(*rest, key, value, other);
            },
            _ => {},
        },
        _ => {},
    }
}

/// The value of a property in a property list.
pub fn plist_value(p: &Value, key: &Value) -> (r: Option<Value>)
    ensures
        match r {
            Some(v) => plist_get(p@, key@) == Some(v@),
            None => plist_get(p@, key@) is None,
        },
    decreases p,
{
    proof {
        reveal_with_fuel(Value::lisp, 3);
    }
    match p {
        Value::Cons(k, t) => match &**t {
            Value::Cons(v, rest) => if k.same(key) {
                Some(v.copy())
            } else {
                plist_value(rest, key)
            },
            _ => None,
        },
        _ => None,
    }
}

/// A property list with a property set.
pub fn plist_set(p: &Value, key: &Value, value: &Value) -> (r: Value)
    ensures
        r@ == plist_put(p@, key@, value@),
    decreases p,
{
    proof {
        reveal_with_fuel(Value::lisp, 3);
    }
    match p {
        Value::Cons(k, t) => match &**t {
            Value::Cons(v, rest) => if k.same(key) {
                Value::cons(k.copy(), Value::cons(value.copy(), rest.copy()))
            } else {
                Value::cons(k.copy(), Value::cons(v.copy(), plist_set(rest, key, value)))
            },
            _ => Value::list2(key.copy(), value.copy()),
        },
        _ => Value::list2(key.copy(), value.copy()),
    }
}

/// A property list with each property of another one set, in order.
pub open spec fn plist_overlaid(p: Lisp, over: Lisp) -> Lisp
    decreases over,
{
    match over {
        Lisp::Cons(k, t) => match *t {
            Lisp::Cons(v, rest) => plist_overlaid(plist_put(p, *k, *v), *rest),
            _ => p,
        },
        _ => p,
    }
}

/// A property list with each property of another one set, in order.
pub fn overlay_plist(p: &Value, over: &Value) -> (r: Value)
    ensures
        r@ == plist_overlaid(p@, over@),
    decreases over,
{
    proof {
        reveal_with_fuel(Value::lisp, 3);
    }
    match over {
        Value::Cons(k, t) => match &**t {
            Value::Cons(v, rest) => {
                let q: Value = plist_set(p, k, v);
                overlay_plist(&q, rest)
            },
            _ => p.copy(),
        },
        _ => p.copy(),
    }
}

/// The property list of the character with number `i`: that of the first run
/// `(START END PLIST)` that covers it.
pub open spec fn plist_at(runs: Lisp, i: int) -> Lisp
    decreases runs,
{
    match runs {
        Lisp::Cons(run, rest) => match (int_of(car(*run)), int_of(car(cdr(*run)))) {
            (Some(a), Some(b)) => if a <= i < b {
                car(cdr(cdr(*run)))
            } else {
                plist_at(*rest, i)
            },
            _ => plist_at(*rest, i),
        },
        _ => Lisp::Nil,
    }
}

/// The property list of the character with number `i`.
pub fn properties_at(runs: &Value, i: usize) -> (r: Value)
    ensures
        r@ == plist_at(runs@, i as int),
    decreases runs,
{
    match runs {
        Value::Cons(run, rest) => {
            let tail: Value = run.cdr();
            match (run.car().as_int(), tail.car().as_int()) {
                (Some(a), Some(b)) => if a as i128 <= i as i128 && (i as i128) < b as i128 {
                    tail.cdr().car()
                } else {
                    properties_at(rest, i)
                },
                _ => properties_at(rest, i),
            }
        },
        _ => Value::Nil,
    }
}

/// A character with a property list.
pub open spec fn marked(c: char, props: Lisp) -> Mark {
    Mark { c, props }
}

/// A text without properties.
pub open spec fn plain(text: Seq<char>) -> Seq<Mark> {
    Seq::new(text.len(), |i: int| marked(text[i], Lisp::Nil))
}

/// The characters of a text.
pub open spec fn chars_in(s: Seq<Mark>) -> Seq<char> {
    Seq::new(s.len(), |i: int| s[i].c)
}

/// The text of a string with the properties that it has; nothing for any other value.
pub open spec fn string_marks(v: Lisp) -> Seq<Mark> {
    match v {
        Lisp::Str(text, runs) => {
            let s = string_storage(text);
            Seq::new(s.len(), |i: int| marked(s[i], plist_at(*runs, i)))
        },
        _ => Seq::empty(),
    }
}

/// A text with the properties of a list set on every character; unchanged where
/// the list is no proper one.
pub open spec fn overlaid(s: Seq<Mark>, over: Lisp) -> Seq<Mark> {
    if list_items(over) is Some {
        Seq::new(
            s.len(),
            |i: int| Mark { c: s[i].c, props: plist_overlaid(s[i].props, over) },
        )
    } else {
        s
    }
}

/// A text with some spaces after it.
pub open spec fn padded(s: Seq<Mark>, n: int) -> Seq<Mark> {
    s + plain(
        Seq::new(
            if n > 0 {
                n as nat
            } else {
                0
            },
            |i: int| ' ',
        ),
    )
}

/// A text of at most `precision` characters, where that is not zero, and of at least `width`.
pub open spec fn segment(s: Seq<Mark>, width: int, precision: int) -> Seq<Mark> {
    let t = if 0 < precision < s.len() {
        s.take(precision)
    } else {
        s
    };
    padded(t, width - t.len())
}

/// A segment has at least the width and, where it is longer, at most the precision.
pub proof fn law_segment_length(s: Seq<Mark>, width: int, precision: int)
    ensures
        segment(s, width, precision).len() >= width,
        precision > 0 && width <= precision ==> segment(s, width, precision).len() <= precision,
        width <= s.len() && precision <= 0 ==> segment(s, width, precision) == s,
{
    if width <= s.len() && precision <= 0 {
        assert(segment(s, width, precision) =~= s);
    }
}

/// A property list with a face under the one that it has.
pub open spec fn with_face(p: Lisp, face: Lisp) -> Lisp {
    plist_put(
        p,
        sym("face"@),
        match plist_get(p, sym("face"@)) {
            Some(f) => list2(f, face),
            None => face,
        },
    )
}

/// A text with a face under what each character has.
pub open spec fn faced(s: Seq<Mark>, face: Lisp) -> Seq<Mark> {
    Seq::new(s.len(), |i: int| Mark { c: s[i].c, props: with_face(s[i].props, face) })
}

/// The index after the run of characters with the same properties that `i` lies in.
pub open spec fn run_end(s: Seq<Mark>, i: int) -> int
    decreases s.len() - i,
{
    if i < 0 || i + 1 >= s.len() || s[i + 1].props != s[i].props {
        i + 1
    } else {
        run_end(s, i + 1)
    }
}

proof fn lemma_run_end(s: Seq<Mark>, i: int)
    requires
        0 <= i < s.len(),
    ensures
        i < run_end(s, i) <= s.len(),
        forall|j: int| i <= j < run_end(s, i) ==> (#[trigger] s[j]).props == s[i].props,
    decreases s.len() - i,
{
    if !(i + 1 >= s.len() || s[i + 1].props != s[i].props) {
        lemma_run_end(s, i + 1);
        assert(s[i + 1].props == s[i].props);
    }
}

/// The runs of a text from an index on, without those that have no properties.
pub open spec fn runs_from(s: Seq<Mark>, i: int) -> Lisp
    decreases s.len() - i,
{
    if i < 0 || i >= s.len() || !(i < run_end(s, i) <= s.len()) {
        Lisp::Nil
    } else {
        let j = run_end(s, i);
        if s[i].props == Lisp::Nil {
            runs_from(s, j)
        } else {
            cons(
                list3(Lisp::Int(i as i64), Lisp::Int(j as i64), s[i].props),
                runs_from(s, j),
            )
        }
    }
}

/// The properties of each character are read back from the runs of its text.
pub proof fn law_runs_read_back(s: Seq<Mark>, k: int)
    requires
        0 <= k < s.len() <= i64::MAX,
    ensures
        plist_at(runs_from(s, 0), k) == s[k].props,
{
    lemma_runs(s, 0, k);
}

proof fn lemma_runs(s: Seq<Mark>, i: int, k: int)
    requires
        0 <= i <= s.len() <= i64::MAX,
        0 <= k < s.len(),
    ensures
        plist_at(runs_from(s, i), k) == (if k < i {
            Lisp::Nil
        } else {
            s[k].props
        }),
    decreases s.len() - i,
{
    if i < s.len() {
        lemma_run_end(s, i);
        let j = run_end(s, i);
        lemma_runs(s, j, k);
        if i <= k < j {
            assert(s[k].props == s[i].props);
        }
    }
}

/// Whether a face argument asks for a text without properties.
pub open spec fn wants_no_properties(face: Lisp) -> bool {
    face is Int
}

/// The face that a face argument asks for.
pub open spec fn wanted_face(face: Lisp) -> Option<Lisp> {
    if face is Int || face == Lisp::Nil || face == sym("default"@) {
        None
    } else {
        Some(face)
    }
}

/// Whether a text has a character beyond one byte.
pub open spec fn needs_multibyte(s: Seq<char>) -> bool {
    exists|i: int|
        0 <= i < stored_codes(s, 0, false).len() && #[trigger] stored_codes(s, 0, false)[i] > 0xFF
}

/// The string that a text is, with a face argument applied.
pub open spec fn rendered_value(s: Seq<Mark>, face: Lisp) -> Lisp {
    let text = storage_text(chars_in(s), needs_multibyte(chars_in(s)));
    if wants_no_properties(face) {
        Lisp::Str(text, Box::new(Lisp::Nil))
    } else {
        let t = match wanted_face(face) {
            Some(f) => faced(s, f),
            None => s,
        };
        Lisp::Str(text, Box::new(runs_from(t, 0)))
    }
}

impl ModeLineRendered {
    /// No text.
    pub fn new() -> (r: Self)
        ensures
            r@ == Seq::<Mark>::empty(),
    {
        let r = ModeLineRendered { chars: Vec::new() };
        proof {
            assert(r@ =~= Seq::<Mark>::empty());
        }
        r
    }

    /// A text without properties.
    pub fn plain(text: &[char]) -> (r: Self)
        ensures
            r@ == plain(text@),
    {
        let mut r = ModeLineRendered::new();
        let mut i: usize = 0;
        while i < text.len()
            invariant
                i <= text.len(),
                r@ == plain(text@).take(i as int),
            decreases text.len() - i,
        {
            proof {
                assert(marked(text@[i as int], Lisp::Nil) == plain(text@)[i as int]);
                assert(plain(text@).take(i + 1) =~= plain(text@).take(i as int).push(
                    Mark { c: text@[i as int], props: Lisp::Nil },
                ));
            }
            r.push(text[i], Value::Nil);
            i = i + 1;
        }
        proof {
            assert(plain(text@).take(i as int) =~= plain(text@));
        }
        r
    }

    /// Appends a character.
    pub fn push(&mut self, c: char, props: Value)
        ensures
            final(self)@ == old(self)@.push((Mark { c, props: props@ })),
    {
        let ghost before = self@;
        let ghost p = props@;
        self.chars.push(MarkedChar { c, props });
        proof {
            assert(self@ =~= before.push(Mark { c, props: p }));
        }
    }

    /// The number of characters.
    pub fn char_len(&self) -> (r: usize)
        ensures
            r == self@.len(),
    {
        self.chars.len()
    }

    /// Appends a text.
    pub fn append_rendered(&mut self, other: &Self)
        ensures
            final(self)@ == old(self)@ + other@,
    {
        let ghost before = self@;
        let mut i: usize = 0;
        proof {
            assert(before + other@.take(0) =~= before);
        }
        while i < other.chars.len()
            invariant
                i <= other.chars.len(),
                self@ == before + other@.take(i as int),
            decreases other.chars.len() - i,
        {
            proof {
                assert(before + other@.take(i + 1) =~= (before + other@.take(i as int)).push(
                    other@[i as int],
                ));
            }
            self.push(other.chars[i].c, other.chars[i].props.copy());
            i = i + 1;
        }
        proof {
            assert(other@.take(i as int) =~= other@);
        }
    }

    /// The text of a string with the properties that it has.
    pub fn of_string(v: &Value) -> (r: Self)
        ensures
            r@ == string_marks(v@),
    {
        let mut r = ModeLineRendered::new();
        match v {
            Value::Str(s, runs) => {
                let text: Vec<char> = runtime_string_from_lisp_string(s);
                let mut i: usize = 0;
                while i < text.len()
                    invariant
                        i <= text.len(),
                        v@ == Lisp::Str(s@, Box::new(runs@)),
                        text@ == string_storage(s@),
                        string_marks(v@).len() == text@.len(),
                        r@ == string_marks(v@).take(i as int),
                    decreases text.len() - i,
                {
                    let p: Value = properties_at(runs, i);
                    proof {
                        assert(marked(text@[i as int], p@) == string_marks(v@)[i as int]);
                        assert(string_marks(v@).take(i + 1) =~= string_marks(v@).take(
                            i as int,
                        ).push(Mark { c: text@[i as int], props: p@ }));
                    }
                    r.push(text[i], p);
                    i = i + 1;
                }
                proof {
                    assert(string_marks(v@).take(i as int) =~= string_marks(v@));
                }
            },
            _ => {
                proof {
                    assert(string_marks(v@) =~= Seq::<Mark>::empty());
                }
            },
        }
        r
    }

    /// Sets the properties of a list on every character.
    pub fn overlay_properties(&mut self, over: &Value)
        ensures
            final(self)@ == overlaid(old(self)@, over@),
    {
        match list_to_vec(over) {
            Some(_) => {},
            None => {
                return;
            },
        }
        let ghost before = self@;
        let mut out = ModeLineRendered::new();
        let mut i: usize = 0;
        proof {
            assert(overlaid(before, over@).take(0) =~= Seq::<Mark>::empty());
        }
        while i < self.chars.len()
            invariant
                i <= self.chars.len(),
                self@ == before,
                list_items(over@) is Some,
                out@ == overlaid(before, over@).take(i as int),
            decreases self.chars.len() - i,
        {
            let p: Value = overlay_plist(&self.chars[i].props, over);
            proof {
                assert(before[i as int] == self.chars@[i as int]@);
                assert(overlaid(before, over@).take(i + 1) =~= overlaid(before, over@).take(
                    i as int,
                ).push(Mark { c: self.chars@[i as int].c, props: p@ }));
            }
            out.push(self.chars[i].c, p);
            i = i + 1;
        }
        proof {
            assert(overlaid(before, over@).take(i as int) =~= overlaid(before, over@));
        }
        *self = out;
    }

    /// Appends spaces.
    pub fn pad_plain_spaces(&mut self, n: u64)
        ensures
            final(self)@ == padded(old(self)@, n as int),
    {
        let ghost before = self@;
        let mut i: u64 = 0;
        proof {
            assert(padded(before, 0) =~= before);
        }
        while i < n
            invariant
                i <= n,
                self@ == padded(before, i as int),
            decreases n - i,
        {
            proof {
                assert(padded(before, i + 1) =~= padded(before, i as int).push(
                    Mark { c: ' ', props: Lisp::Nil },
                ));
            }
            self.push(' ', Value::Nil);
            i = i + 1;
        }
    }

    /// A text of at most `precision` characters, where that is not zero, and of at least `width`.
    pub fn segment(&self, width: u64, precision: u64) -> (r: Self)
        ensures
            r@ == segment(self@, width as int, precision as int),
    {
        let n: usize = if precision > 0 && precision < self.chars.len() as u64 {
            precision as usize
        } else {
            self.chars.len()
        };
        let mut r = ModeLineRendered::new();
        let mut i: usize = 0;
        proof {
            assert(self@.take(0) =~= Seq::<Mark>::empty());
        }
        while i < n
            invariant
                i <= n <= self.chars.len(),
                r@ == self@.take(i as int),
            decreases n - i,
        {
            proof {
                assert(self@.take(i + 1) =~= self@.take(i as int).push(self@[i as int]));
            }
            r.push(self.chars[i].c, self.chars[i].props.copy());
            i = i + 1;
        }
        let ghost t = r@;
        if width > n as u64 {
            r.pad_plain_spaces(width - n as u64);
        }
        proof {
            assert(self@.take(self@.len() as int) =~= self@);
            if width <= n {
                assert(padded(t, width - t.len()) =~= t);
            }
        }
        r
    }

    /// Puts a face under what each character has.
    pub fn apply_default_face(&mut self, face: &Value)
        ensures
            final(self)@ == faced(old(self)@, face@),
    {
        let ghost before = self@;
        let key: Value = Value::symbol("face");
        let mut out = ModeLineRendered::new();
        let mut i: usize = 0;
        proof {
            assert(faced(before, face@).take(0) =~= Seq::<Mark>::empty());
        }
        while i < self.chars.len()
            invariant
                i <= self.chars.len(),
                self@ == before,
                key@ == sym("face"@),
                out@ == faced(before, face@).take(i as int),
            decreases self.chars.len() - i,
        {
            let p: &Value = &self.chars[i].props;
            let merged: Value = match plist_value(p, &key) {
                Some(f) => Value::list2(f, face.copy()),
                None => face.copy(),
            };
            let q: Value = plist_set(p, &key, &merged);
            proof {
                assert(before[i as int] == self.chars@[i as int]@);
                assert(faced(before, face@).take(i + 1) =~= faced(before, face@).take(
                    i as int,
                ).push(Mark { c: self.chars@[i as int].c, props: q@ }));
            }
            out.push(self.chars[i].c, q);
            i = i + 1;
        }
        proof {
            assert(faced(before, face@).take(i as int) =~= faced(before, face@));
        }
        *self = out;
    }

    /// The index after the run of characters with the same properties that `i` lies in.
    fn end_of_run(&self, i: usize) -> (r: usize)
        requires
            i < self@.len(),
        ensures
            r == run_end(self@, i as int),
            i < r <= self@.len(),
    {
        let mut j: usize = i;
        while j + 1 < self.chars.len() && self.chars[j + 1].props.same(&self.chars[j].props)
            invariant
                i <= j < self.chars.len(),
                run_end(self@, j as int) == run_end(self@, i as int),
            decreases self.chars.len() - j,
        {
            proof {
                assert(self@[j as int] == self.chars@[j as int]@);
                assert(self@[j + 1] == self.chars@[j + 1]@);
            }
            j = j + 1;
        }
        proof {
            assert(self@[j as int] == self.chars@[j as int]@);
            if j + 1 < self@.len() {
                assert(self@[j + 1] == self.chars@[j + 1]@);
            }
        }
        j + 1
    }

    /// The runs of the text from an index on.
    fn runs(&self, i: usize) -> (r: Value)
        requires
            i <= self@.len(),
        ensures
            r@ == runs_from(self@, i as int),
        decreases self@.len() - i,
    {
        if i >= self.chars.len() {
            return Value::Nil;
        }
        let j: usize = self.end_of_run(i);
        let rest: Value = self.runs(j);
        proof {
            assert(self@[i as int] == self.chars@[i as int]@);
        }
        if self.chars[i].props.is_nil() {
            rest
        } else {
            Value::cons(
                Value::list3(
                    Value::Int(i as i64),
                    Value::Int(j as i64),
                    self.chars[i].props.copy(),
                ),
                rest,
            )
        }
    }

    /// The characters of the text.
    pub fn text(&self) -> (r: Vec<char>)
        ensures
            r@ == chars_in(self@),
    {
        let mut out: Vec<char> = Vec::new();
        let mut i: usize = 0;
        while i < self.chars.len()
            invariant
                i <= self.chars.len(),
                out@ == chars_in(self@).take(i as int),
            decreases self.chars.len() - i,
        {
            proof {
                assert(chars_in(self@).take(i + 1) =~= chars_in(self@).take(i as int).push(
                    self.chars@[i as int].c,
                ));
            }
            out.push(self.chars[i].c);
            i = i + 1;
        }
        proof {
            assert(chars_in(self@).take(i as int) =~= chars_in(self@));
        }
        out
    }

    /// The string that the text is, with a face argument applied.
    pub fn into_value(self, face: &Value) -> (r: Value)
        ensures
            r@ == rendered_value(self@, face@),
    {
        let chars: Vec<char> = self.text();
        let multibyte: bool = beyond_one_byte(chars.as_slice());
        let s: LispString = runtime_string_to_lisp_string(chars.as_slice(), multibyte);
        let plain_face: bool = match face {
            Value::Int(_) => true,
            _ => false,
        };
        if plain_face {
            return Value::heap_string(s);
        }
        let mut marked = self;
        if !face.is_nil() && !face.is_symbol_named("default") {
            marked.apply_default_face(face);
        }
        proof {
            reveal_strlit("default");
            reveal_strlit("nil");
            reveal_strlit("t");
            assert("default"@.len() == 7 && "nil"@.len() == 3 && "t"@.len() == 1);
        }
        let runs: Value = marked.runs(0);
        Value::Str(s, Box::new(runs))
    }
}

/// Whether a text has a character beyond one byte.
fn beyond_one_byte(s: &[char]) -> (r: bool)
    ensures
        r == needs_multibyte(s@),
{
    let codes: Vec<u32> = decode_storage_char_codes(s, false);
    let mut i: usize = 0;
    while i < codes.len()
        invariant
            i <= codes.len(),
            codes@ == stored_codes(s@, 0, false),
            forall|j: int| 0 <= j < i ==> #[trigger] codes@[j] <= 0xFF,
        decreases codes.len() - i,
    {
        if codes[i] > 0xFF {
            proof {
                assert(stored_codes(s@, 0, false)[i as int] > 0xFF);
            }
            return true;
        }
        i = i + 1;
    }
    false
}

} // verus!
