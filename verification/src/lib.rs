//! Inspection and normalization of line-ending conventions in byte streams.
//!
//! The library has two leaf components, both pure transformations over bytes:
//! a measurer that classifies every completed line by its terminator and
//! accumulates counts ([`CrlfStat::measure_file`]), and a converter that
//! rewrites every line's terminator to a chosen convention while preserving
//! all other byte content exactly ([`convert_to`]). The caller is responsible
//! for reading a file into memory and writing the transformed bytes back.

pub mod convert;
pub mod ending;
pub mod laws;
pub mod model;
pub mod stats;

pub use convert::convert_to;
pub use ending::LineEnding;
pub use stats::CrlfStat;
