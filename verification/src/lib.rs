//! Bakes a hierarchical, typed configuration document into a flat sequence of
//! named constant declarations.
//!
//! The library parses a `Konfigurator` document (an XML tree of `Section`
//! groups holding typed `Config` leaves), resolves each leaf to its effective
//! value (override if present, else default), and emits one text buffer of
//! `#[no_mangle]` constant declarations, one per leaf, named by the leaf's
//! fully qualified section path. All of the parsing, resolution and emission
//! logic is verified; reading and writing files is left to the caller.

pub mod decode;
pub mod emit;
pub mod error;
pub mod header;
pub mod model;
pub mod text;
pub mod xml;
