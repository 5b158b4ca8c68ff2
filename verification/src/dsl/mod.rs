//! The wire format of the script evaluator and its decoder.

pub mod parser;
pub mod encoder;
pub mod roundtrip;
