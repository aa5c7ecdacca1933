use tiler::Color;
use tiler::CoverPoint;
use tiler::Font;
use tiler::Glyph;
use tiler::GlyphOutline;
use tiler::TILE_HEIGHT;
use tiler::TILE_WIDTH;

fn pixel_of(g: &Glyph, x: usize, y: usize) -> (u8, u8, u8, u8) {
    let base = 4 * (y * g.width + x);
    (g.data[base], g.data[base + 1], g.data[base + 2], g.data[base + 3])
}

#[test]
fn blank_fills_every_pixel_with_the_color() {
    let g = Glyph::blank(Color::rgb(7, 8, 9));
    assert_eq!(g.width, TILE_WIDTH);
    assert_eq!(g.height, TILE_HEIGHT);
    assert_eq!(g.data.len(), TILE_WIDTH * TILE_HEIGHT * 4);
    assert!(g.is_valid());
    for y in 0..g.height {
        for x in 0..g.width {
            assert_eq!(pixel_of(&g, x, y), (7, 8, 9, 255));
        }
    }
}

#[test]
fn pixel_start_is_row_major() {
    let g = Glyph::blank(Color::mono(0));
    assert_eq!(g.pixel_start(0, 0), 0);
    assert_eq!(g.pixel_start(1, 0), 1);
    assert_eq!(g.pixel_start(0, 1), TILE_WIDTH);
    assert_eq!(g.pixel_start(3, 2), 2 * TILE_WIDTH + 3);
}

#[test]
fn set_pixel_overwrites_one_pixel_only() {
    let mut g = Glyph::blank(Color::mono(0));
    g.set_pixel(2, 5, Color::rgb(10, 20, 30));
    assert_eq!(pixel_of(&g, 2, 5), (10, 20, 30, 255));
    assert_eq!(pixel_of(&g, 3, 5), (0, 0, 0, 255));
    assert_eq!(pixel_of(&g, 2, 4), (0, 0, 0, 255));
    assert!(g.is_valid());
}

#[test]
fn interp_at_zero_coverage_is_the_background() {
    let fg = Color::rgb(200, 100, 50);
    let bg = Color::rgb(1, 2, 3);
    assert_eq!(Color::interp(fg, bg, 0), bg);
}

#[test]
fn interp_at_full_coverage_is_the_foreground() {
    let fg = Color::rgb(200, 100, 50);
    let bg = Color::rgb(1, 2, 3);
    assert_eq!(Color::interp(fg, bg, 255), fg);
}

#[test]
fn interp_midpoint_follows_the_square_root_blend() {
    // 128 * 255^2 / 255 = 32640, whose integer square root is 180.
    let c = Color::interp(Color::rgb(255, 0, 0), Color::rgb(0, 0, 0), 128);
    assert_eq!(c.r, 180);
    assert_eq!(c.g, 0);
    assert_eq!(c.b, 0);
    // Alpha interpolates linearly: (127 * 255 + 128 * 255) / 255 = 255.
    assert_eq!(c.a, 255);
}

#[test]
fn glyph_buffer_length_is_always_width_height_four() {
    let font = Font::new(vec![GlyphOutline {
        ch: 'x',
        points: vec![CoverPoint { x: 1, y: 1, cover: 255 }],
    }]);
    for ch in ['x', 'y'] {
        let g = font.glyph(ch, Color::mono(255), Color::mono(0));
        assert_eq!(g.data.len(), g.width * g.height * 4);
        assert!(g.is_valid());
    }
}

#[test]
fn rasterizing_composites_covered_pixels() {
    let font = Font::new(vec![GlyphOutline {
        ch: 'x',
        points: vec![
            CoverPoint { x: 0, y: 0, cover: 0 },
            CoverPoint { x: 1, y: 0, cover: 255 },
        ],
    }]);
    let fg = Color::rgb(200, 100, 50);
    let bg = Color::rgb(3, 4, 5);
    let g = font.glyph('x', fg, bg);
    // Coverage 0 composites to the background, coverage 255 to the foreground.
    assert_eq!(pixel_of(&g, 0, 0), (3, 4, 5, 255));
    assert_eq!(pixel_of(&g, 1, 0), (200, 100, 50, 255));
    // An untouched pixel keeps the background fill.
    assert_eq!(pixel_of(&g, 2, 2), (3, 4, 5, 255));
}

#[test]
fn rasterizing_clips_points_outside_the_cell() {
    let outside = vec![
        CoverPoint { x: -1, y: 0, cover: 255 },
        CoverPoint { x: 0, y: -3, cover: 255 },
        CoverPoint { x: TILE_WIDTH as i32, y: 0, cover: 255 },
        CoverPoint { x: 0, y: TILE_HEIGHT as i32, cover: 255 },
        CoverPoint { x: 1000, y: 1000, cover: 255 },
    ];
    let font = Font::new(vec![GlyphOutline { ch: 'x', points: outside }]);
    let bg = Color::rgb(9, 9, 9);
    let g = font.glyph('x', Color::mono(255), bg);
    let blank = Glyph::blank(bg);
    assert_eq!(g.data, blank.data);
}

#[test]
fn rasterizing_an_unknown_character_yields_a_blank_cell() {
    let font = Font::new(vec![]);
    let bg = Color::rgb(1, 2, 3);
    let g = font.glyph('?', Color::mono(255), bg);
    assert_eq!(g.data, Glyph::blank(bg).data);
}

#[test]
fn later_coverage_points_win_over_earlier_ones() {
    let font = Font::new(vec![GlyphOutline {
        ch: 'x',
        points: vec![
            CoverPoint { x: 4, y: 4, cover: 0 },
            CoverPoint { x: 4, y: 4, cover: 255 },
        ],
    }]);
    let fg = Color::rgb(100, 110, 120);
    let g = font.glyph('x', fg, Color::mono(0));
    assert_eq!(pixel_of(&g, 4, 4), (100, 110, 120, 255));
}

#[test]
fn first_matching_outline_entry_wins() {
    let font = Font::new(vec![
        GlyphOutline {
            ch: 'x',
            points: vec![CoverPoint { x: 0, y: 0, cover: 255 }],
        },
        GlyphOutline {
            ch: 'x',
            points: vec![CoverPoint { x: 5, y: 5, cover: 255 }],
        },
    ]);
    let fg = Color::rgb(50, 60, 70);
    let bg = Color::mono(0);
    let g = font.glyph('x', fg, bg);
    assert_eq!(pixel_of(&g, 0, 0), (50, 60, 70, 255));
    assert_eq!(pixel_of(&g, 5, 5), (0, 0, 0, 255));
}

#[test]
fn is_valid_rejects_mismatched_buffers() {
    let bad = Glyph { width: 2, height: 2, data: vec![0; 15] };
    assert!(!bad.is_valid());
    let overflowing = Glyph { width: usize::MAX, height: 2, data: Vec::new() };
    assert!(!overflowing.is_valid());
}
