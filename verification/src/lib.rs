//! Core of a camera capture-and-display pipeline: device/format introspection
//! with a deterministic ordering contract, selector and property-kind parsing,
//! single-producer/single-consumer frame hand-off, and packed 4:2:2 to RGBA
//! frame conversion with exact buffer-size arithmetic.

pub mod capture;
pub mod catalog;
pub mod channel;
pub mod convert;
pub mod errors;
pub mod format;
pub mod selector;
