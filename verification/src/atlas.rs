//! The atlas builder: the whole tile-set compiled into its runtime lookup
//! table.
//!
//! Given the ordered list of tile declarations, the builder validates each
//! tile's attributes, resolves its two color expressions, rasterizes its
//! character, and assembles the glyphs in declaration order. It aborts on
//! the first structural violation — there is no partial atlas. Within one
//! tile the order of checks is: attribute grammar, the cross-tile `default`
//! uniqueness, the foreground color, the background color; the missing
//! `default` marker is detected after the last tile.

use crate::color::Color;
use crate::color::ColorResolutionError;
use crate::color::spec_resolve;
use crate::glyph::Font;
use crate::glyph::Glyph;
use crate::glyph::GlyphOutline;
use crate::glyph::TILE_HEIGHT;
use crate::glyph::TILE_WIDTH;
use crate::glyph::spec_apply;
use crate::glyph::spec_blank_data;
use crate::glyph::spec_outline;
use crate::tile::GrammarError;
use crate::tile::TileDefShape;
use crate::tile::parse_tile;
use crate::tile::spec_parse_tile;
use vstd::prelude::*;

verus! {

/// One tile's raw declaration: its name, and its attribute lines as the
/// grammar of `crate::tile` expects them.
#[derive(Debug, Clone)]
pub struct TileSpec {
    pub name: String,
    pub attrs: Vec<String>,
}

/// The spec-level shape of a raw tile declaration.
pub struct TileSpecShape {
    pub name: Seq<char>,
    pub attrs: Seq<Seq<char>>,
}

impl View for TileSpec {
    type V = TileSpecShape;

    open spec fn view(&self) -> TileSpecShape {
        TileSpecShape { name: self.name@, attrs: self.attrs.deep_view() }
    }
}

/// Which color field of a tile an error belongs to.
#[derive(Debug, Copy, Clone, PartialEq, Eq, Structural)]
pub enum ColorField {
    Foreground,
    Background,
}

/// Why an atlas build failed: the first structural violation, attributed to
/// the tile where it was detected. A missing `default` marker is detected
/// only after the last tile, so it carries the number of tiles as its
/// position.
#[derive(Debug, Copy, Clone, PartialEq, Eq, Structural)]
pub enum BuildError {
    /// A grammar error while validating the attributes of tile `tile`, or a
    /// `default` marker clashing with an earlier tile's.
    Grammar { tile: usize, error: GrammarError },
    /// A color expression of tile `tile` that does not resolve.
    Color { tile: usize, field: ColorField, error: ColorResolutionError },
}

/// The runtime lookup table: one glyph per tile in declaration order, the
/// default tile's index, and each tile's display character. This is the
/// sole artifact the rendering backend consumes.
#[derive(Debug, Clone)]
pub struct Atlas {
    pub glyphs: Vec<Glyph>,
    pub default_index: usize,
    pub char_of: Vec<char>,
}

/// The spec-level shape of an atlas: the glyphs' pixel buffers in order,
/// the default index, and the display characters.
pub struct AtlasShape {
    pub glyphs: Seq<Seq<u8>>,
    pub default_index: int,
    pub char_of: Seq<char>,
}

impl View for Atlas {
    type V = AtlasShape;

    open spec fn view(&self) -> AtlasShape {
        AtlasShape {
            glyphs: self.glyphs@.map_values(|g: Glyph| g.data@),
            default_index: self.default_index as int,
            char_of: self.char_of@,
        }
    }
}

/// The pixel data of one tile's glyph: its character's coverage composited
/// onto a background-filled cell.
pub open spec fn spec_tile_glyph(
    outlines: Seq<GlyphOutline>,
    ch: char,
    fg: Color,
    bg: Color,
) -> Seq<u8> {
    spec_apply(spec_blank_data(bg), spec_outline(outlines, ch), fg, bg)
}

/// What one raw tile declaration validates to.
pub open spec fn spec_tile_def(t: TileSpec) -> Result<TileDefShape, GrammarError> {
    spec_parse_tile(t@.name, t@.attrs)
}

/// Whether one tile declaration parses and both of its colors resolve.
pub open spec fn spec_tile_ok(t: TileSpec) -> bool {
    &&& spec_tile_def(t) is Ok
    &&& spec_resolve(spec_tile_def(t)->Ok_0.fg_color_expr) is Ok
    &&& spec_resolve(spec_tile_def(t)->Ok_0.bg_color_expr) is Ok
}

/// How many tiles from position `i` on parse successfully and carry the
/// `default` marker.
pub open spec fn default_count(tiles: Seq<TileSpec>, i: int) -> int
    decreases tiles.len() - i,
{
    if 0 <= i < tiles.len() {
        (if spec_tile_def(tiles[i]) is Ok && spec_tile_def(tiles[i])->Ok_0.is_default {
            1int
        } else {
            0int
        }) + default_count(tiles, i + 1)
    } else {
        0
    }
}

/// The atlas build as a fold over the tiles from position `i` on, carrying
/// the glyphs and characters assembled so far and the default position
/// already seen, if any.
pub open spec fn spec_build_from(
    tiles: Seq<TileSpec>,
    outlines: Seq<GlyphOutline>,
    i: int,
    gs: Seq<Seq<u8>>,
    cs: Seq<char>,
    d: Option<int>,
) -> Result<AtlasShape, BuildError>
    decreases tiles.len() - i,
{
    if 0 <= i < tiles.len() {
        match spec_tile_def(tiles[i]) {
            Err(g) => Err(BuildError::Grammar { tile: i as usize, error: g }),
            Ok(def) => {
                if def.is_default && d is Some {
                    Err(
                        BuildError::Grammar {
                            tile: i as usize,
                            error: GrammarError::DuplicateDefault,
                        },
                    )
                } else {
                    match spec_resolve(def.fg_color_expr) {
                        Err(e) => Err(
                            BuildError::Color {
                                tile: i as usize,
                                field: ColorField::Foreground,
                                error: e,
                            },
                        ),
                        Ok(fgc) => match spec_resolve(def.bg_color_expr) {
                            Err(e) => Err(
                                BuildError::Color {
                                    tile: i as usize,
                                    field: ColorField::Background,
                                    error: e,
                                },
                            ),
                            Ok(bgc) => spec_build_from(
                                tiles,
                                outlines,
                                i + 1,
                                gs.push(spec_tile_glyph(outlines, def.character, fgc, bgc)),
                                cs.push(def.character),
                                if def.is_default {
                                    Some(i)
                                } else {
                                    d
                                },
                            ),
                        },
                    }
                }
            },
        }
    } else {
        match d {
            None => Err(
                BuildError::Grammar { tile: i as usize, error: GrammarError::MissingDefault },
            ),
            Some(di) => Ok(AtlasShape { glyphs: gs, default_index: di, char_of: cs }),
        }
    }
}

/// What the whole atlas build yields for a tile-set: the assembled atlas,
/// or the first structural violation.
pub open spec fn spec_build(tiles: Seq<TileSpec>, outlines: Seq<GlyphOutline>) -> Result<
    AtlasShape,
    BuildError,
> {
    spec_build_from(tiles, outlines, 0, Seq::empty(), Seq::empty(), None::<int>)
}

proof fn lemma_default_count_nonneg(tiles: Seq<TileSpec>, i: int)
    ensures
        default_count(tiles, i) >= 0,
    decreases tiles.len() - i,
{
    if 0 <= i < tiles.len() {
        lemma_default_count_nonneg(tiles, i + 1);
    }
}

/// The inductive heart of the builder's contract: from any intermediate
/// state holding one glyph and one character per processed tile, the fold
/// succeeds exactly when every remaining tile is clean and the whole set
/// carries exactly one `default`; and on success the result keeps the
/// accumulated prefix unchanged and assembles one glyph per remaining tile
/// in declaration order.
proof fn lemma_build_from_props(
    tiles: Seq<TileSpec>,
    outlines: Seq<GlyphOutline>,
    i: int,
    gs: Seq<Seq<u8>>,
    cs: Seq<char>,
    d: Option<int>,
)
    requires
        0 <= i <= tiles.len(),
        gs.len() == i,
        cs.len() == i,
    ensures
        spec_build_from(tiles, outlines, i, gs, cs, d) is Ok <==> ((forall|j: int|
            i <= j < tiles.len() ==> spec_tile_ok(#[trigger] tiles[j])) && default_count(tiles, i)
            + (if d is Some {
            1int
        } else {
            0int
        }) == 1),
        spec_build_from(tiles, outlines, i, gs, cs, d) is Ok ==> ({
            let m = spec_build_from(tiles, outlines, i, gs, cs, d)->Ok_0;
            &&& m.glyphs.len() == tiles.len()
            &&& m.char_of.len() == tiles.len()
            &&& (forall|k: int| 0 <= k < i ==> m.glyphs[k] == gs[k] && m.char_of[k] == cs[k])
            &&& (forall|j: int|
                i <= j < tiles.len() ==> ({
                    let def = spec_tile_def(#[trigger] tiles[j])->Ok_0;
                    m.glyphs[j] == spec_tile_glyph(
                        outlines,
                        def.character,
                        spec_resolve(def.fg_color_expr)->Ok_0,
                        spec_resolve(def.bg_color_expr)->Ok_0,
                    ) && m.char_of[j] == def.character
                }))
            &&& (match d {
                Some(di) => m.default_index == di && (forall|j: int|
                    i <= j < tiles.len() ==> !(spec_tile_def(
                        #[trigger] tiles[j],
                    )->Ok_0.is_default)),
                None => i <= m.default_index < tiles.len() && (forall|j: int|
                    i <= j < tiles.len() ==> ((spec_tile_def(#[trigger] tiles[j])->Ok_0.is_default)
                        <==> m.default_index == j)),
            })
        }),
    decreases tiles.len() - i,
{
    lemma_default_count_nonneg(tiles, i);
    if i < tiles.len() {
        lemma_default_count_nonneg(tiles, i + 1);
        match spec_tile_def(tiles[i]) {
            Err(_) => {
                assert(!spec_tile_ok(tiles[i]));
            },
            Ok(def) => {
                if def.is_default && d is Some {
                    assert(default_count(tiles, i) >= 1);
                } else {
                    match spec_resolve(def.fg_color_expr) {
                        Err(_) => {
                            assert(!spec_tile_ok(tiles[i]));
                        },
                        Ok(fgc) => {
                            match spec_resolve(def.bg_color_expr) {
                                Err(_) => {
                                    assert(!spec_tile_ok(tiles[i]));
                                },
                                Ok(bgc) => {
                                    let gs2 = gs.push(
                                        spec_tile_glyph(outlines, def.character, fgc, bgc),
                                    );
                                    let cs2 = cs.push(def.character);
                                    let d2 = if def.is_default {
                                        Some(i)
                                    } else {
                                        d
                                    };
                                    lemma_build_from_props(tiles, outlines, i + 1, gs2, cs2, d2);
                                    assert(spec_tile_ok(tiles[i]));
                                    assert(gs2[i] == spec_tile_glyph(
                                        outlines,
                                        def.character,
                                        fgc,
                                        bgc,
                                    ));
                                    assert(cs2[i] == def.character);
                                    assert(forall|k: int|
                                        0 <= k < i ==> gs2[k] == gs[k] && cs2[k] == cs[k]);
                                },
                            }
                        },
                    }
                }
            },
        }
    }
}

/// For any tile-set whose every tile declares exactly one character and
/// resolvable colors, and which carries exactly one `default` marker
/// overall, atlas construction succeeds — and only for such a set. On
/// success, the atlas holds exactly as many glyphs as there are tile
/// definitions.
pub proof fn lemma_build_succeeds(tiles: Seq<TileSpec>, outlines: Seq<GlyphOutline>)
    ensures
        spec_build(tiles, outlines) is Ok <==> ((forall|j: int|
            0 <= j < tiles.len() ==> spec_tile_ok(#[trigger] tiles[j])) && default_count(tiles, 0)
            == 1),
        spec_build(tiles, outlines) is Ok ==> spec_build(tiles, outlines)->Ok_0.glyphs.len()
            == tiles.len(),
{
    lemma_build_from_props(tiles, outlines, 0, Seq::empty(), Seq::empty(), None::<int>);
}

/// Index stability: on success, tile `j`'s glyph and display character
/// stand at atlas position `j` — a tile's atlas index always equals its
/// declaration-order position — and the default index is the position of
/// the one tile carrying the `default` marker.
pub proof fn lemma_atlas_index_stability(tiles: Seq<TileSpec>, outlines: Seq<GlyphOutline>)
    requires
        spec_build(tiles, outlines) is Ok,
    ensures
        ({
            let m = spec_build(tiles, outlines)->Ok_0;
            &&& m.glyphs.len() == tiles.len()
            &&& m.char_of.len() == tiles.len()
            &&& (forall|j: int|
                0 <= j < tiles.len() ==> ({
                    let def = spec_tile_def(#[trigger] tiles[j])->Ok_0;
                    m.glyphs[j] == spec_tile_glyph(
                        outlines,
                        def.character,
                        spec_resolve(def.fg_color_expr)->Ok_0,
                        spec_resolve(def.bg_color_expr)->Ok_0,
                    ) && m.char_of[j] == def.character
                }))
            &&& 0 <= m.default_index < tiles.len()
            &&& (forall|j: int|
                0 <= j < tiles.len() ==> ((spec_tile_def(#[trigger] tiles[j])->Ok_0.is_default)
                    <==> m.default_index == j))
        }),
{
    lemma_build_from_props(tiles, outlines, 0, Seq::empty(), Seq::empty(), None::<int>);
}

/// A tile index option, as a spec value.
spec fn opt_index(o: Option<usize>) -> Option<int> {
    match o {
        None => None,
        Some(v) => Some(v as int),
    }
}

/// Build the atlas for a whole tile-set: validate every tile, resolve its
/// colors, rasterize its character, and assemble the glyphs in declaration
/// order, aborting on the first structural violation.
pub fn build_atlas(font: &Font, tiles: &Vec<TileSpec>) -> (r: Result<Atlas, BuildError>)
    ensures
        match r {
            Ok(atlas) => {
                &&& spec_build(tiles@, font.outlines@) == Ok::<AtlasShape, BuildError>(atlas@)
                &&& atlas.glyphs@.len() == tiles@.len()
                &&& atlas.char_of@.len() == tiles@.len()
                &&& atlas.default_index < tiles@.len()
                &&& forall|k: int|
                    0 <= k < atlas.glyphs@.len() ==> (#[trigger] atlas.glyphs@[k]).wf()
                        && atlas.glyphs@[k].width == TILE_WIDTH && atlas.glyphs@[k].height
                        == TILE_HEIGHT
                &&& forall|j: int|
                    0 <= j < tiles@.len() ==> #[trigger] atlas.char_of@[j] == spec_tile_def(
                        tiles@[j],
                    )->Ok_0.character
                &&& forall|j: int|
                    0 <= j < tiles@.len() ==> ((spec_tile_def(#[trigger] tiles@[j])->Ok_0.is_default)
                        <==> atlas.default_index == j)
            },
            Err(e) => spec_build(tiles@, font.outlines@) == Err::<AtlasShape, BuildError>(e),
        },
{
    let n = tiles.len();
    let mut glyphs: Vec<Glyph> = Vec::new();
    let mut char_of: Vec<char> = Vec::new();
    let mut dflt: Option<usize> = None;
    proof {
        assert(glyphs@.map_values(|g: Glyph| g.data@) =~= Seq::<Seq<u8>>::empty());
        assert(char_of@ =~= Seq::<char>::empty());
    }
    let mut i: usize = 0;
    while i < n
        invariant
            i <= n,
            n == tiles@.len(),
            glyphs@.len() == i,
            char_of@.len() == i,
            spec_build(tiles@, font.outlines@) == spec_build_from(
                tiles@,
                font.outlines@,
                i as int,
                glyphs@.map_values(|g: Glyph| g.data@),
                char_of@,
                opt_index(dflt),
            ),
            match dflt {
                Some(di) => di < i,
                None => true,
            },
            forall|k: int|
                0 <= k < glyphs@.len() ==> (#[trigger] glyphs@[k]).wf() && glyphs@[k].width
                    == TILE_WIDTH && glyphs@[k].height == TILE_HEIGHT,
        decreases n - i,
    {
        let t = &tiles[i];
        match parse_tile(t.name.as_str(), &t.attrs) {
            Err(g) => {
                return Err(BuildError::Grammar { tile: i, error: g });
            },
            Ok(def) => {
                if def.is_default && dflt.is_some() {
                    return Err(
                        BuildError::Grammar { tile: i, error: GrammarError::DuplicateDefault },
                    );
                }
                match Color::parse(def.fg_color_expr.as_str()) {
                    Err(e) => {
                        return Err(
                            BuildError::Color {
                                tile: i,
                                field: ColorField::Foreground,
                                error: e,
                            },
                        );
                    },
                    Ok(fgc) => {
                        match Color::parse(def.bg_color_expr.as_str()) {
                            Err(e) => {
                                return Err(
                                    BuildError::Color {
                                        tile: i,
                                        field: ColorField::Background,
                                        error: e,
                                    },
                                );
                            },
                            Ok(bgc) => {
                                let ghost gs_before = glyphs@.map_values(|g: Glyph| g.data@);
                                let g = font.glyph(def.character, fgc, bgc);
                                glyphs.push(g);
                                char_of.push(def.character);
                                if def.is_default {
                                    dflt = Some(i);
                                }
                                proof {
                                    assert(glyphs@.map_values(|g: Glyph| g.data@)
                                        =~= gs_before.push(g.data@));
                                }
                            },
                        }
                    },
                }
            },
        }
        i += 1;
    }
    match dflt {
        None => Err(BuildError::Grammar { tile: n, error: GrammarError::MissingDefault }),
        Some(di) => {
            let atlas = Atlas { glyphs, default_index: di, char_of };
            proof {
                lemma_atlas_index_stability(tiles@, font.outlines@);
            }
            Ok(atlas)
        },
    }
}

} // verus!
