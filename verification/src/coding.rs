//! The coding systems that a session knows.
use crate::encoding::family::{coding_base, strip_eol_suffix};
use crate::table::{entry, with_entry, SymTable};
use crate::text::{append_chars, chars_of, string_of};
use crate::value::{sym, symbol_name, Lisp, Value};
use vstd::prelude::*;

verus! {

/// What the coding systems of a session are: the canonical name of each name, and
/// the coding systems of the terminal and the keyboard.
pub struct Codings {
    pub systems: Seq<(Seq<char>, Lisp)>,
    pub terminal: Seq<char>,
    pub keyboard: Seq<char>,
}

/// The coding systems of a session.
#[derive(Debug, PartialEq, Eq)]
pub struct CodingSystemManager {
    pub systems: SymTable,
    pub terminal: String,
    pub keyboard: String,
}

impl View for CodingSystemManager {
    type V = Codings;

    open spec fn view(&self) -> Codings {
        Codings {
            systems: self.systems@,
            terminal: self.terminal@,
            keyboard: self.keyboard@,
        }
    }
}

/// What follows the base of a coding system's name: the part that names its line endings.
pub open spec fn eol_part(name: Seq<char>) -> Seq<char> {
    name.skip(coding_base(name).len() as int)
}

impl Codings {
    /// The canonical name of a name that was defined.
    pub open spec fn defined(self, name: Seq<char>) -> Option<Seq<char>> {
        match entry(self.systems, name) {
            Some(v) => symbol_name(v),
            None => None,
        }
    }

    /// Whether a name was defined, itself or without its line endings.
    pub open spec fn knows(self, name: Seq<char>) -> bool {
        self.defined(name) is Some || self.defined(coding_base(name)) is Some
    }

    /// The canonical name of a name, with the line endings that it names.
    pub open spec fn canonical(self, name: Seq<char>) -> Option<Seq<char>> {
        match self.defined(name) {
            Some(c) => Some(c),
            None => match self.defined(coding_base(name)) {
                Some(c) => Some(c + eol_part(name)),
                None => None,
            },
        }
    }

    /// The coding systems with one more name.
    pub open spec fn with(self, name: Seq<char>, canonical: Seq<char>) -> Codings {
        Codings { systems: with_entry(self.systems, name, sym(canonical)), ..self }
    }
}

/// No coding systems but those of the terminal and the keyboard.
pub open spec fn no_codings() -> Codings {
    Codings { systems: Seq::empty(), terminal: "utf-8-unix"@, keyboard: "utf-8-unix"@ }
}

/// The coding systems that every session knows.
pub open spec fn standard_codings() -> Codings {
    no_codings().with("utf-8"@, "utf-8"@).with("mule-utf-8"@, "utf-8"@).with(
        "utf-8-emacs"@,
        "utf-8-emacs"@,
    ).with("emacs-internal"@, "utf-8-emacs"@).with("utf-8-auto"@, "utf-8-auto"@).with(
        "prefer-utf-8"@,
        "prefer-utf-8"@,
    ).with("undecided"@, "undecided"@).with("raw-text"@, "raw-text"@).with(
        "no-conversion"@,
        "no-conversion"@,
    ).with("binary"@, "no-conversion"@).with("us-ascii"@, "us-ascii"@).with(
        "ascii"@,
        "us-ascii"@,
    ).with("iso-latin-1"@, "iso-latin-1"@).with("iso-8859-1"@, "iso-latin-1"@).with(
        "latin-1"@,
        "iso-latin-1"@,
    ).with("iso-latin-5"@, "iso-latin-5"@).with("iso-8859-9"@, "iso-latin-5"@).with(
        "latin-5"@,
        "iso-latin-5"@,
    ).with("iso-latin-9"@, "iso-latin-9"@).with("iso-8859-15"@, "iso-latin-9"@).with(
        "latin-9"@,
        "iso-latin-9"@,
    ).with("latin-0"@, "iso-latin-9"@).with("chinese-iso-8bit"@, "chinese-iso-8bit"@).with(
        "cn-gb-2312"@,
        "chinese-iso-8bit"@,
    ).with("euc-china"@, "chinese-iso-8bit"@).with("euc-cn"@, "chinese-iso-8bit"@).with(
        "cn-gb"@,
        "chinese-iso-8bit"@,
    ).with("gb2312"@, "chinese-iso-8bit"@).with("chinese-big5"@, "chinese-big5"@).with(
        "big5"@,
        "chinese-big5"@,
    ).with("cn-big5"@, "chinese-big5"@).with("cp950"@, "chinese-big5"@).with(
        "chinese-big5-hkscs"@,
        "chinese-big5-hkscs"@,
    ).with("big5-hkscs"@, "chinese-big5-hkscs"@).with(
        "cn-big5-hkscs"@,
        "chinese-big5-hkscs"@,
    ).with("utf-16"@, "utf-16"@).with("utf-16le"@, "utf-16le"@).with(
        "utf-16-le"@,
        "utf-16le"@,
    ).with("utf-16be"@, "utf-16be"@).with("utf-16-be"@, "utf-16be"@).with(
        "utf-16le-with-signature"@,
        "utf-16le-with-signature"@,
    ).with("utf-16be-with-signature"@, "utf-16be-with-signature"@)
}

impl CodingSystemManager {
    /// The coding systems that every session knows.
    pub fn new() -> (r: Self)
        ensures
            r@ == standard_codings(),
    {
        let mut c = CodingSystemManager {
            systems: SymTable::new(),
            terminal: "utf-8-unix".to_owned(),
            keyboard: "utf-8-unix".to_owned(),
        };
        c.define("utf-8", "utf-8");
        c.define("mule-utf-8", "utf-8");
        c.define("utf-8-emacs", "utf-8-emacs");
        c.define("emacs-internal", "utf-8-emacs");
        c.define("utf-8-auto", "utf-8-auto");
        c.define("prefer-utf-8", "prefer-utf-8");
        c.define("undecided", "undecided");
        c.define("raw-text", "raw-text");
        c.define("no-conversion", "no-conversion");
        c.define("binary", "no-conversion");
        c.define("us-ascii", "us-ascii");
        c.define("ascii", "us-ascii");
        c.define("iso-latin-1", "iso-latin-1");
        c.define("iso-8859-1", "iso-latin-1");
        c.define("latin-1", "iso-latin-1");
        c.define("iso-latin-5", "iso-latin-5");
        c.define("iso-8859-9", "iso-latin-5");
        c.define("latin-5", "iso-latin-5");
        c.define("iso-latin-9", "iso-latin-9");
        c.define("iso-8859-15", "iso-latin-9");
        c.define("latin-9", "iso-latin-9");
        c.define("latin-0", "iso-latin-9");
        c.define("chinese-iso-8bit", "chinese-iso-8bit");
        c.define("cn-gb-2312", "chinese-iso-8bit");
        c.define("euc-china", "chinese-iso-8bit");
        c.define("euc-cn", "chinese-iso-8bit");
        c.define("cn-gb", "chinese-iso-8bit");
        c.define("gb2312", "chinese-iso-8bit");
        c.define("chinese-big5", "chinese-big5");
        c.define("big5", "chinese-big5");
        c.define("cn-big5", "chinese-big5");
        c.define("cp950", "chinese-big5");
        c.define("chinese-big5-hkscs", "chinese-big5-hkscs");
        c.define("big5-hkscs", "chinese-big5-hkscs");
        c.define("cn-big5-hkscs", "chinese-big5-hkscs");
        c.define("utf-16", "utf-16");
        c.define("utf-16le", "utf-16le");
        c.define("utf-16-le", "utf-16le");
        c.define("utf-16be", "utf-16be");
        c.define("utf-16-be", "utf-16be");
        c.define("utf-16le-with-signature", "utf-16le-with-signature");
        c.define("utf-16be-with-signature", "utf-16be-with-signature");
        c
    }

    /// Defines a name.
    pub fn define(&mut self, name: &str, canonical: &str)
        ensures
            final(self)@ == old(self)@.with(name@, canonical@),
    {
        self.systems.set(name, Value::symbol(canonical));
    }

    /// The canonical name of a name that was defined.
    fn defined(&self, name: &str) -> (r: Option<String>)
        ensures
            crate::value::opt_text(r) == self@.defined(name@),
    {
        match self.systems.get(name) {
            Some(v) => v.as_symbol_name(),
            None => None,
        }
    }

    /// Whether a name was defined, itself or without its line endings.
    pub fn is_known_or_derived(&self, name: &str) -> (r: bool)
        ensures
            r == self@.knows(name@),
    {
        if self.defined(name).is_some() {
            return true;
        }
        let base: String = strip_eol_suffix(name);
        self.defined(base.as_str()).is_some()
    }

    /// The canonical name of a name, with the line endings that it names.
    pub fn canonical_runtime_name(&self, name: &str) -> (r: Option<String>)
        ensures
            crate::value::opt_text(r) == self@.canonical(name@),
    {
        match self.defined(name) {
            Some(c) => Some(c),
            None => {
                let base: String = strip_eol_suffix(name);
                match self.defined(base.as_str()) {
                    Some(c) => {
                        let mut out: Vec<char> = chars_of(c.as_str());
                        let whole: Vec<char> = chars_of(name);
                        let n: usize = chars_of(base.as_str()).len();
                        append_chars(
                            &mut out,
                            vstd::slice::slice_subrange(whole.as_slice(), n, whole.len()),
                        );
                        proof {
                            assert(whole@.subrange(n as int, whole@.len() as int) =~= eol_part(
                                name@,
                            ));
                        }
                        Some(string_of(out.as_slice()))
                    },
                    None => None,
                }
            },
        }
    }
}

} // verus!
