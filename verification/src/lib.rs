//! Decoder for RenderWare binary stream files (model clumps and texture
//! dictionaries), a resolver that turns the decoded section tree into flat
//! renderable mesh data, a raster decoder for block-compressed textures, and
//! a texture-atlas packer that merges per-material tiles into one atlas.
//!
//! Floating-point quantities read from the wire (positions, normals, texture
//! coordinates, lighting factors) are carried as their raw IEEE-754 bit
//! patterns; this library only moves them, it never computes with them.

pub mod bytes;
pub mod constants;
pub mod types;
pub mod parser;
pub mod dff;
pub mod txd;
pub mod packer;
pub mod text;
pub mod dat;
