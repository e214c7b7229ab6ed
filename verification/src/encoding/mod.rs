//! Character encoding, multibyte support, and character utilities.
pub mod builtins;
pub mod commands;
pub mod convert;
pub mod decode_laws;
pub mod eol;
pub mod family;
pub mod given_laws;
pub mod glyphless;
pub mod latin;
pub mod laws;
pub mod name_laws;
pub mod position;
pub mod region_laws;
pub mod sign_laws;
pub mod string_laws;
pub mod tables;
pub mod utf16;
pub mod utf8_emacs;
pub mod width;
