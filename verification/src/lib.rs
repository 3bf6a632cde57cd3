//! A CBOR codec: a primitive encoder and decoder for single data items, an
//! aggregate layer that frames sequences and maps, and the laws that tie the
//! two directions together.

pub mod argument;
pub mod common;
pub mod de;
pub mod error;
pub mod float;
pub mod item;
pub mod laws;
pub mod nesting;
pub mod ser;
