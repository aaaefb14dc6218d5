//! Content-addressable associative retrieval over stored embedding vectors.
//!
//! Every single-precision float is carried as its IEEE-754 bit pattern (`u32`),
//! so that byte-exact storage and bit-for-bit fixed-point tests are stated and
//! proved over plain integers.
pub mod codec;
pub mod matrix;
pub mod hopfield;
pub mod store;
