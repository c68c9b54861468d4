//! Build-time policy and buffer model for a boundary around an embedded
//! script engine.

pub mod text;
pub mod pattern;
pub mod symbols;
pub mod rules;
pub mod flags;
pub mod driver;
pub mod sc;
pub mod generator;
