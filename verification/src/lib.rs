//! A deterministic procedural icon synthesizer and the text utilities of
//! the launcher tool around it: a seed string is turned into two visually
//! distinct colors, and those colors into a fixed-size RGBA raster of an
//! anti-aliased, diagonally blended disc. Beside the icon stand the
//! launcher-entry template rewriting, the misspelling keywords, and the
//! title-casing of an executable name.

pub mod color;
pub mod desktop;
pub mod errors;
pub mod icon;
pub mod misspellings;
pub mod rng;
pub mod text;
