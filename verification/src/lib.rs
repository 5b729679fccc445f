//! An in-memory raster image pipeline: decode a compressed image into an
//! RGBA pixel buffer, run a gradient-magnitude edge-detection filter over
//! it, and expose the resulting buffer and its dimensions.

pub mod buffer;
pub mod codec;
pub mod filter;
pub mod gray;
pub mod processor;
