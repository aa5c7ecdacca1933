//! A character-cell tile display core.
//!
//! The tile-definition compiler turns a declarative description of a small
//! set of symbolic tiles — each with a display character, a foreground color
//! expression and a background color expression — into an atlas of
//! fixed-size RGBA8 bitmaps: the attribute grammar parser validates each
//! tile's declaration, the color resolver turns color strings into RGBA8
//! values, the glyph rasterizer composites a character's coverage into a
//! fixed-size cell, and the atlas builder assembles the results in
//! declaration order under strict uniqueness invariants. The grid store is
//! the atlas's direct consumer: a dense 2-D buffer of tile identifiers with
//! coordinate-based access and a textual debug dump.

pub mod atlas;
pub mod color;
pub mod glyph;
pub mod grid;
pub mod tile;

pub use atlas::Atlas;
pub use atlas::BuildError;
pub use atlas::ColorField;
pub use atlas::TileSpec;
pub use atlas::build_atlas;
pub use color::Color;
pub use color::ColorResolutionError;
pub use glyph::CoverPoint;
pub use glyph::Font;
pub use glyph::Glyph;
pub use glyph::GlyphOutline;
pub use glyph::TILE_HEIGHT;
pub use glyph::TILE_WIDTH;
pub use grid::Grid;
pub use grid::GridError;
pub use tile::GrammarError;
pub use tile::TileAttr;
pub use tile::TileDefinition;
pub use tile::parse_attr;
pub use tile::parse_tile;
