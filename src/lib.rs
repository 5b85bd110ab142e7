//! A derivation engine for two code patterns over record types: a staged
//! builder with validating setters, and a structural debug printer with
//! per-field format overrides. The engine works on a plain description of the
//! type's shape and produces plans that an emitter turns into code.

pub mod model;
pub mod literal;
pub mod template;
pub mod attr;
pub mod classify;
pub mod error;
pub mod builder;
pub mod debug;
pub mod staged;
pub mod laws;
