//! Hides a byte payload in the low four bits of the red, green and blue
//! channels of an RGBA image, and recovers it again.

pub mod canvas;
pub mod codec;
pub mod laws;
pub mod nibbles;
pub mod text;
