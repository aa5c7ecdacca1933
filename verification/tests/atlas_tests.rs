use tiler::BuildError;
use tiler::Color;
use tiler::ColorField;
use tiler::ColorResolutionError;
use tiler::CoverPoint;
use tiler::Font;
use tiler::GlyphOutline;
use tiler::GrammarError;
use tiler::Grid;
use tiler::TileSpec;
use tiler::TILE_HEIGHT;
use tiler::TILE_WIDTH;
use tiler::build_atlas;

fn tile(name: &str, attrs: &[&str]) -> TileSpec {
    TileSpec {
        name: name.to_string(),
        attrs: attrs.iter().map(|s| s.to_string()).collect(),
    }
}

fn test_font() -> Font {
    Font::new(vec![
        GlyphOutline {
            ch: '.',
            points: vec![CoverPoint { x: 10, y: 20, cover: 255 }],
        },
        GlyphOutline {
            ch: '#',
            points: vec![
                CoverPoint { x: 0, y: 0, cover: 255 },
                CoverPoint { x: 1, y: 0, cover: 255 },
            ],
        },
    ])
}

#[test]
fn well_formed_tile_set_builds_one_glyph_per_tile() {
    let tiles = vec![
        tile("Grass", &["char = .", "fg_color = green", "default"]),
        tile("Wall", &["char = #", "fg_color = gray"]),
    ];
    let atlas = build_atlas(&test_font(), &tiles).unwrap();
    assert_eq!(atlas.glyphs.len(), tiles.len());
    assert_eq!(atlas.char_of.len(), tiles.len());
}

#[test]
fn atlas_index_follows_declaration_order() {
    let tiles = vec![
        tile("A", &["char = a"]),
        tile("B", &["char = b", "default"]),
        tile("C", &["char = c"]),
    ];
    let atlas = build_atlas(&test_font(), &tiles).unwrap();
    assert_eq!(atlas.char_of, vec!['a', 'b', 'c']);
    assert_eq!(atlas.default_index, 1);
}

#[test]
fn zero_default_tiles_fail_with_missing_default() {
    let tiles = vec![tile("A", &["char = a"]), tile("B", &["char = b"])];
    let err = build_atlas(&test_font(), &tiles).unwrap_err();
    assert_eq!(
        err,
        BuildError::Grammar { tile: 2, error: GrammarError::MissingDefault }
    );
}

#[test]
fn two_default_tiles_fail_with_duplicate_default() {
    let tiles = vec![
        tile("A", &["char = a", "default"]),
        tile("B", &["char = b", "default"]),
    ];
    let err = build_atlas(&test_font(), &tiles).unwrap_err();
    assert_eq!(
        err,
        BuildError::Grammar { tile: 1, error: GrammarError::DuplicateDefault }
    );
}

#[test]
fn a_tile_without_char_fails_with_missing_char() {
    let tiles = vec![tile("A", &["default"])];
    let err = build_atlas(&test_font(), &tiles).unwrap_err();
    assert_eq!(
        err,
        BuildError::Grammar { tile: 0, error: GrammarError::MissingChar }
    );
}

#[test]
fn a_bad_color_is_attributed_to_its_tile_and_field() {
    let tiles = vec![
        tile("A", &["char = a", "default"]),
        tile("B", &["char = b", "fg_color = hsl(1,2,3)"]),
    ];
    let err = build_atlas(&test_font(), &tiles).unwrap_err();
    assert_eq!(
        err,
        BuildError::Color {
            tile: 1,
            field: ColorField::Foreground,
            error: ColorResolutionError::UnsupportedColorForm,
        }
    );

    let tiles = vec![tile("A", &["char = a", "default", "bg_color = nope"])];
    let err = build_atlas(&test_font(), &tiles).unwrap_err();
    assert_eq!(
        err,
        BuildError::Color {
            tile: 0,
            field: ColorField::Background,
            error: ColorResolutionError::UnrecognizedColorExpression,
        }
    );
}

#[test]
fn the_build_aborts_on_the_first_violation() {
    let tiles = vec![
        tile("A", &["char = a", "shine = yes", "default"]),
        tile("B", &["char = b", "fg_color = nope"]),
    ];
    let err = build_atlas(&test_font(), &tiles).unwrap_err();
    assert_eq!(
        err,
        BuildError::Grammar { tile: 0, error: GrammarError::UnknownAttribute }
    );
}

#[test]
fn every_atlas_glyph_has_a_full_pixel_buffer() {
    let tiles = vec![
        tile("Grass", &["char = .", "fg_color = green", "default"]),
        tile("Wall", &["char = #", "fg_color = gray"]),
    ];
    let atlas = build_atlas(&test_font(), &tiles).unwrap();
    for g in &atlas.glyphs {
        assert_eq!(g.width, TILE_WIDTH);
        assert_eq!(g.height, TILE_HEIGHT);
        assert_eq!(g.data.len(), g.width * g.height * 4);
    }
}

#[test]
fn glyph_pixels_reflect_the_resolved_colors() {
    let tiles = vec![tile("Wall", &["char = #", "fg_color = gray", "default"])];
    let atlas = build_atlas(&test_font(), &tiles).unwrap();
    let g = &atlas.glyphs[0];
    // The '#' outline covers (0,0) and (1,0) at full coverage, which the
    // blend maps to the foreground color; gray is (128,128,128).
    assert_eq!(g.data[0..4], [128, 128, 128, 255]);
    // An uncovered pixel keeps the background fill; the default background
    // expression is black.
    let base = 4 * (5 * g.width + 5);
    assert_eq!(g.data[base..base + 4], [0, 0, 0, 255]);
}

#[test]
fn end_to_end_atlas_and_grid_render_a_row() {
    let tiles = vec![
        tile("Grass", &["char = .", "fg_color = green", "default"]),
        tile("Wall", &["char = #", "fg_color = gray"]),
    ];
    let atlas = build_atlas(&test_font(), &tiles).unwrap();
    assert_eq!(atlas.glyphs.len(), 2);
    assert_eq!(atlas.default_index, 0);

    let mut grid: Grid<usize> = Grid::new(3, 1, 1);
    grid.set(1, 0, 0).unwrap();
    let dump: String = grid.debug_dump(&atlas.char_of).into_iter().collect();
    assert_eq!(dump, "#.#");
}

#[test]
fn an_empty_tile_set_has_no_default() {
    let tiles: Vec<TileSpec> = vec![];
    let err = build_atlas(&test_font(), &tiles).unwrap_err();
    assert_eq!(
        err,
        BuildError::Grammar { tile: 0, error: GrammarError::MissingDefault }
    );
}

#[test]
fn resolved_colors_match_the_color_resolver() {
    // The atlas pipeline resolves through the same grammar as Color::parse.
    assert_eq!(Color::parse("green"), Ok(Color { r: 0, g: 128, b: 0, a: 255 }));
    assert_eq!(Color::parse("gray"), Ok(Color { r: 128, g: 128, b: 128, a: 255 }));
}
