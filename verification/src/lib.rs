//! Matching of OSC addresses against OSC address patterns.
//!
//! A pattern such as `/oscillator/[0-9]/*/{frequency,phase}` is compiled
//! once into a [`address::Matcher`], which then decides for any address
//! whether the pattern covers it.

pub mod address;
pub mod engine;
pub mod errors;
pub mod expression;
pub mod message;
pub mod path;
pub mod rule;
pub mod text;

