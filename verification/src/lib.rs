//! Builds a TrueType icon font from vector icon outlines.
//!
//! An icon is a path of moves, lines and curves in a viewport, with a fill
//! rule and a codepoint. Building a font takes each icon through four
//! steps:
//!
//! 1. `outline`: the path is brought from the source grid into font units
//!    (scaled to the em, turned over so that y grows upwards);
//! 2. `winding`: a path drawn for the even-odd rule is rewound so that it
//!    fills alike under the non-zero rule, which is the only one that the
//!    glyph format knows;
//! 3. `curves`: cubic curves are replaced by quadratic ones, the only
//!    curves that the glyph format knows;
//! 4. `glyph`: the font crate traces the outline into the rings of points
//!    that the glyph format holds, and the rings are tested for what a
//!    glyph can hold.
//!
//! `font_builder` then puts the glyphs, the character map and the fixed
//! tables of `tables` together; `encode` holds the calls into the
//! `write-fonts` and `kurbo` crates that trace and encode them. `manifest` and `preview` write
//! the texts that go with a font.
//!
//! Coordinates are integers throughout: an icon's path is given on an
//! integer grid of the caller's choosing, and glyph outlines live on the
//! integer grid of font units. Every function is verified against a
//! contract over the mathematical model of its data; what is taken on
//! trust of code outside this crate is marked as trusted where it stands.

use vstd::prelude::*;

pub mod arith;
pub mod curves;
pub mod encode;
pub mod font_builder;
pub mod glyph;
pub mod icon;
pub mod manifest;
pub mod outline;
pub mod outline_laws;
pub mod path;
pub mod preview;
pub mod tables;
pub mod text;
pub mod winding;
pub mod winding_laws;

pub use font_builder::{assemble_font, build_cmap, build_font, build_glyphs, BuildError};
pub use icon::{filename_to_identifier, Icon};
pub use manifest::generate_manifest;
pub use outline::svg_path_to_glyph;
pub use path::{FillRule, PathCommand, Point};
pub use preview::{base64_encode, generate_preview};
