//! Histogramming logic of a SpecTcl-like analysis server: parameter
//! dictionaries, event flattening and id mapping, conditions (gates),
//! the request processors of the histogramming thread, the state of the
//! event processing thread, and the gating of projected spectra.
//!
//! Parameter values travel through the library as the bit patterns of
//! IEEE-754 binary64 numbers (`u64`); the library orders them with
//! `real_bits` and otherwise only carries them.
pub mod real_bits;
pub mod parameters;
pub mod conditions;
pub mod glob_pattern;
pub mod messaging;
pub mod spectra;
pub mod histogramer;
pub mod processing;
pub mod projections;
pub mod ports;
