//! Where converted strings go, and what their conversion keeps.
use crate::buffer::{bytes_for, BufferState};
use crate::encoding::builtins::{decoded_string, encoded_string};
use crate::encoding::commands::coding_string;
use crate::encoding::region_laws::{law_received_text, lemma_buffer_replaced};
use crate::session::SessionState;
use crate::value::{wrong_type, Lisp, Outcome};
use vstd::prelude::*;

verus! {

/// A converted string that goes into a buffer is the one that would be given, put in at
/// point, of which the number of characters is given. The current buffer stays current.
pub proof fn law_string_goes_into_buffer(
    s: SessionState,
    string: Lisp,
    coding: Lisp,
    nocopy: Lisp,
    encode: bool,
    id: u64,
    b: BufferState,
)
    requires
        s.ui.buffers.get(id) == Some(b),
        0 <= b.pt <= b.text.len(),
        coding_string(s, seq![string, coding], encode).end is Value,
    ensures
        ({
            let given = coding_string(s, seq![string, coding], encode);
            let done = coding_string(s, seq![string, coding, nocopy, Lisp::Buffer(id)], encode);
            &&& given.state.ui == s.ui
            &&& coding_string(s, seq![string, coding, nocopy, Lisp::True], encode) == given
            &&& given.end matches Outcome::Value(Lisp::Str(text, _)) && done.end
                == Outcome::Value(Lisp::Int(text.codes().len() as i64)) && (
            done.state.ui.buffers.get(id) matches Some(d) && d.text == b.text.take(b.pt)
                + bytes_for(b.multibyte, text) + b.text.skip(b.pt) && d.pt == b.pt)
            &&& done.state.ui.buffers.current == s.ui.buffers.current
            &&& done.state.symbols == given.state.symbols
        }),
{
    let x = seq![string, coding];
    let y = seq![string, coding, nocopy, Lisp::Buffer(id)];
    let z = seq![string, coding, nocopy, Lisp::True];
    assert(x.len() == 2 && x[0] == string && x[1] == coding);
    assert(y.len() == 4 && y[0] == string && y[1] == coding && y[3] == Lisp::Buffer(id));
    assert(z.len() == 4 && z[0] == string && z[1] == coding && z[3] == Lisp::True);
    let value = coding_string(s, x, encode).end->Value_0;
    assert(value is Str);
    let text = value->Str_0;
    let runs = *value->Str_1;
    law_received_text(b, text, runs);
    lemma_buffer_replaced(s.ui.buffers, id, BufferState { id, ..b }, 0);
    lemma_buffer_replaced(s.ui.buffers, id, b.received(text, runs), 0);
}

/// A string that is converted without a coding system is given as it is, and what is no
/// string is refused.
pub proof fn law_string_without_coding_is_kept(s: SessionState, string: Lisp, encode: bool)
    requires
        s.codings.knows("no-conversion"@),
    ensures
        string is Str ==> coding_string(s, seq![string, Lisp::Nil], encode).end
            == Outcome::Value(string),
        string !is Str ==> coding_string(s, seq![string, Lisp::Nil], encode).end
            == wrong_type("stringp"@, string),
{
    let x = seq![string, Lisp::Nil];
    assert(x.len() == 2 && x[0] == string && x[1] == Lisp::Nil);
}

/// What is encoded is bytes, and what is decoded by a coding system that does not keep bytes
/// is text.
pub proof fn law_encoding_gives_bytes(
    s: SessionState,
    string: Lisp,
    coding: Seq<char>,
)
    requires
        string is Str,
        s.codings.knows(coding),
    ensures
        ({
            let args = seq![string, Lisp::Symbol(coding)];
            &&& coding_string(s, args, true).end matches Outcome::Value(Lisp::Str(text, runs))
                && !text.multibyte && *runs == Lisp::Nil
            &&& coding_string(s, args, false).end matches Outcome::Value(Lisp::Str(text, _))
                && text.multibyte == !crate::encoding::family::byte_preserving(coding)
        }),
{
    let args = seq![string, Lisp::Symbol(coding)];
    assert(args.len() == 2 && args[0] == string && args[1] == Lisp::Symbol(coding));
    let t = string->Str_0;
    assert(encoded_string(t, coding) is Str && decoded_string(t, coding) is Str);
}

} // verus!
