//! Import pipeline for a 16-bit-console cartridge image ("ROM"): decompression,
//! address translation, graphics and composite-tile assembly, map composition,
//! palette resolution and tile canonicalization, producing editable palettes
//! and areas.

pub mod addr;
pub mod areas;
pub mod canon;
pub mod codec;
pub mod common;
pub mod constants;
pub mod error;
pub mod flip;
pub mod graphics;
pub mod helpers;
pub mod import;
pub mod map;
pub mod neighbors;
pub mod palettes;
pub mod rom;
pub mod state;
pub mod tiles;
