//! A query and rendering engine over a snapshot of the type metadata that a
//! compiler embeds in a program's debug information.
//!
//! The snapshot is a fixed, ordered collection of type entries, each found by
//! its global offset. Over it the engine resolves names and offsets, computes
//! sizes and alignments, reconstructs source-like definitions, and answers
//! the interactive commands as text.

pub mod commands;
pub mod goff;
pub mod info;
pub mod layout;
pub mod model;
pub mod num;
pub mod ordered;
pub mod query;
pub mod render;
pub mod snapshot;
pub mod style;
pub mod text;
