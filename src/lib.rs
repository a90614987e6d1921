//! Single-block MD5: a from-scratch compression engine for messages of at
//! most 55 bytes, and a brute-force search for keys whose digest starts
//! with zero digits.
pub mod engine;
pub mod laws;
pub mod rounds;
pub mod search;
pub mod words;

pub use engine::MD5Context;
pub use rounds::{f, g, h, i};
