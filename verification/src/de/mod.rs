//! The decoder: the primitive deserializer for single items, and the complex
//! deserializer that follows the framing of sequences and maps.

pub mod basic;
pub mod complex;
