//! Binary asset pipeline for a small game engine: a byte-exact encoder and
//! decoder for meshes, textures and skeletal animations, together with the
//! playback engine that samples joint poses from a bound animation.
//!
//! Every floating-point quantity (vertex attributes, matrices, transforms)
//! travels through the wire format as its raw IEEE-754 bit pattern, four
//! big-endian bytes per value.  The library therefore stores such values as
//! `u32` bit patterns: the format, the round-trip guarantees and the playback
//! decisions are all exact statements about bytes and integers.  Turning bit
//! patterns into live `f32` matrices is the caller's concern.

pub mod armature;
pub mod assets;
pub mod config;
pub mod decode;
pub mod encode;
pub mod extract;
pub mod format;
pub mod model;
pub mod reader;
pub mod roundtrip;
pub mod writer;
