//! Bitmap fonts for small machines: a compact font value, a text renderer
//! with pairwise kerning, and a compiler from annotated font sheets.

pub mod arena;
pub mod cp437;
pub mod draw;
pub mod font;
pub mod gen;
pub mod glyph;
pub mod kerning;
pub mod load;
pub mod normalize;
pub mod render;
pub mod roundtrip;
pub mod scan;
pub mod shape;
pub mod sheet;
pub mod target;
pub mod text;
pub mod trim;

pub use font::{Font, Placement};
pub use glyph::{Glyph, GlyphStorage};
pub use kerning::{KerningEntry, KerningState, KerningTable};
pub use target::{Canvas, DirectRenderTarget, RenderTarget};
