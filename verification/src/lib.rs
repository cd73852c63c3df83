//! Composition of multi-step Move call sequences into a single transaction
//! script: payload decoding, step resolution, generic substitution, literal
//! encoding and the call wiring that drives a composition engine.
//!
//! A payload is a JSON array of steps. Every step calls a function of a
//! module; a later step may take what an earlier step returned. The
//! pipeline runs from [`payload`] over [`resolve`], [`modules`], [`abi`] and
//! [`literal`] to [`compose`] and [`emit`]. The node that serves the
//! modules and the engine that assembles the script are outside this
//! library: it says what to ask of them and what to make of their answers.

pub mod text;
pub mod number;
pub mod hexcodec;
pub mod json;
pub mod address;
pub mod move_types;
pub mod placeholder;
pub mod payload;
pub mod function_id;
pub mod resolve;
pub mod modules;
pub mod abi;
pub mod literal;
pub mod pipeline;
pub mod compose;
pub mod emit;
pub mod plugin_tools;
pub mod cli_text;
