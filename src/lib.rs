//! Incremental detection of the legacy Japanese encoding of a byte stream:
//! Shift_JIS, EUC-JP or ISO-2022-JP.
//!
//! A designator escape in the 7-bit prefix of the stream decides
//! ISO-2022-JP at once. Otherwise a Shift_JIS and an EUC-JP decoder are
//! handed the same bytes in lockstep; a candidate drops out on a malformed
//! sequence or on a half-width katakana in its output, and the other one is
//! the verdict. When the stream ends with both still standing, the verdict
//! is Shift_JIS.
use vstd::prelude::*;

pub mod candidate;
pub mod scan;
pub mod detector;
pub mod laws;

pub use detector::Detector;

verus! {

/// An encoding that the detector can name as its verdict.
#[derive(Clone, Copy, Debug, PartialEq, Eq, Structural)]
pub enum JapaneseEncoding {
    ShiftJis,
    EucJp,
    Iso2022Jp,
}

} // verus!
