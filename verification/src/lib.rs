//! Text encoding, windows, frames and redisplay builtins of an Emacs Lisp machine.
pub mod alist;
pub mod buffer;
pub mod coding;
pub mod emacs_char;
pub mod encoding;
pub mod face_laws;
pub mod float;
pub mod frame;
pub mod lisp_string;
pub mod marker;
pub mod number_laws;
pub mod process;
pub mod run_laws;
pub mod session;
pub mod snapshot;
pub mod storage;
pub mod symbol;
pub mod table;
pub mod text;
pub mod tiling;
pub mod value;
pub mod window;
pub mod window_cmds;
pub mod xdisp;
pub mod xfaces;
pub mod xml;
