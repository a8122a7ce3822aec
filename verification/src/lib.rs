//! ASCII case-insensitive string identity.
//!
//! Two cooperating types give strings an identity that ignores ASCII letter
//! case: [`AsciiCaselessString`], an owned wrapper around string-like storage,
//! and [`AsciiCaselessStr`], a zero-copy view over a borrowed string slice.
//! Both compare, order and hash by the same case-folded character sequence,
//! stated by the spec functions of [`fold`], while the stored characters keep
//! their original case.

pub mod fold;
pub mod owned;
pub mod view;

pub use crate::owned::AsciiCaselessString;
pub use crate::owned::StrStorage;
pub use crate::view::AsciiCaselessStr;
