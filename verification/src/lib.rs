//! Terminal color sequences.
//!
//! Turns a color specifier — an `R;G;B` decimal triplet, a palette index
//! (0–255), or a `#RRGGBB` hex code — into a record with the resolved
//! channels, a hex string, plain and quoted triplet strings, the VT escape
//! sequences that select the color, and a classification of the input form.

pub mod color;
pub mod colors_info;
pub mod laws;
pub mod render;
pub mod scan;
