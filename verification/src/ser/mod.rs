//! The encoder: the primitive serializer for single items, and the complex
//! serializer that frames sequences and maps around it.

pub mod basic;
pub mod complex;
