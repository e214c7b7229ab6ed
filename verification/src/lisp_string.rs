//! Lisp strings: bytes that are either one character each or in the internal
//! multibyte form.
use crate::emacs_char::{chars_in_multibyte, text_codes};
use crate::text::copy_bytes;
use vstd::prelude::*;

verus! {

/// What a Lisp string holds.
pub struct LispText {
    pub bytes: Seq<u8>,
    pub multibyte: bool,
}

impl LispText {
    /// The character codes of the string.
    pub open spec fn codes(self) -> Seq<u32> {
        text_codes(self.bytes, self.multibyte)
    }
}

/// A Lisp string, without its text properties.
#[derive(Debug, PartialEq, Eq)]
pub struct LispString {
    pub data: Vec<u8>,
    pub multibyte: bool,
}

impl View for LispString {
    type V = LispText;

    open spec fn view(&self) -> LispText {
        LispText { bytes: self.data@, multibyte: self.multibyte }
    }
}

impl LispString {
    /// A unibyte string of the given bytes.
    pub fn from_unibyte(data: Vec<u8>) -> (r: Self)
        ensures
            r@ == (LispText { bytes: data@, multibyte: false }),
    {
        LispString { data, multibyte: false }
    }

    /// A multibyte string whose internal form is the given bytes.
    pub fn from_multibyte(data: Vec<u8>) -> (r: Self)
        ensures
            r@ == (LispText { bytes: data@, multibyte: true }),
    {
        LispString { data, multibyte: true }
    }

    /// The bytes of the string.
    pub fn as_bytes(&self) -> (r: &[u8])
        ensures
            r@ == self@.bytes,
    {
        self.data.as_slice()
    }

    /// Whether the string is multibyte.
    pub fn is_multibyte(&self) -> (r: bool)
        ensures
            r == self@.multibyte,
    {
        self.multibyte
    }

    /// The number of bytes in the string.
    pub fn sbytes(&self) -> (r: usize)
        ensures
            r == self@.bytes.len(),
    {
        self.data.len()
    }

    /// The number of characters in the string.
    pub fn schars(&self) -> (r: usize)
        ensures
            r == self@.codes().len(),
    {
        if self.multibyte {
            chars_in_multibyte(self.data.as_slice())
        } else {
            self.data.len()
        }
    }

    /// A copy of the string.
    pub fn copy(&self) -> (r: Self)
        ensures
            r@ == self@,
    {
        LispString { data: copy_bytes(self.data.as_slice()), multibyte: self.multibyte }
    }

    /// Whether two strings hold the same.
    pub fn same(&self, other: &Self) -> (r: bool)
        ensures
            r == (self@ == other@),
    {
        if self.multibyte != other.multibyte || self.data.len() != other.data.len() {
            return false;
        }
        let mut i: usize = 0;
        while i < self.data.len()
            invariant
                self.data.len() == other.data.len(),
                i <= self.data.len(),
                forall|j: int| 0 <= j < i ==> self.data@[j] == other.data@[j],
            decreases self.data.len() - i,
        {
            if self.data[i] != other.data[i] {
                return false;
            }
            i = i + 1;
        }
        proof {
            assert(self.data@ =~= other.data@);
        }
        true
    }
}

} // verus!
