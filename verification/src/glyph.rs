//! Fixed-size RGBA8 glyph bitmaps and the glyph rasterizer.
//!
//! A glyph is one tile's bitmap: a `TILE_WIDTH` by `TILE_HEIGHT` cell of
//! RGBA8 pixels. Rasterization starts from a cell filled with the background
//! color and composites the foreground at every coverage point of the
//! character's outline. The compositing rule is the
//! square-root-of-weighted-squares blend
//! `sqrt((1 - t) * bg^2 + t * fg^2)` per RGB channel and a plain linear
//! interpolation `(1 - t) * bg_a + t * fg_a` for alpha, with the coverage
//! `t` quantized to `cover / 255` and every channel kept in integer
//! arithmetic (floor rounding). So at coverage 0 a composited pixel keeps
//! the background channel values and at full coverage takes the
//! foreground's. This rule is a deliberate, documented design choice, not a
//! standard linear or gamma-correct alpha blend.
//!
//! The per-pixel coverage of a character's outline is plain data here (a list
//! of coverage points), produced outside this library by whatever font engine
//! the application loads; the clipping and compositing of that coverage into
//! the cell is what this module does.

use crate::color::Color;
use vstd::prelude::*;

verus! {

/// Pixel width of one tile cell.
pub const TILE_WIDTH: usize = 20;

/// Pixel height of one tile cell.
pub const TILE_HEIGHT: usize = 40;

/// One coverage sample of a character outline: the cell coordinates it lands
/// on (possibly outside the cell, in which case it is clipped) and the
/// coverage level, quantized to 0..=255.
#[derive(Debug, Copy, Clone, PartialEq, Eq, Structural)]
pub struct CoverPoint {
    pub x: i32,
    pub y: i32,
    pub cover: u8,
}

/// The rasterized coverage of one character: which pixels its outline
/// touches, and how strongly.
#[derive(Debug, Clone)]
pub struct GlyphOutline {
    pub ch: char,
    pub points: Vec<CoverPoint>,
}

/// A font resource: the rasterized coverage of every character the tile-set
/// may use, loaded once at startup and read-only thereafter. A character
/// without an entry rasterizes to a plain background-filled cell.
#[derive(Debug, Clone)]
pub struct Font {
    pub outlines: Vec<GlyphOutline>,
}

/// One tile's bitmap: a fixed-size cell of RGBA8 pixels.
#[derive(Debug, Clone)]
pub struct Glyph {
    pub width: usize,
    pub height: usize,
    pub data: Vec<u8>,
}

/// The integer square root: the largest `r` with `r * r <= n`.
pub open spec fn spec_isqrt(n: nat) -> nat
    decreases n,
{
    if n == 0 {
        0
    } else {
        let r = spec_isqrt((n - 1) as nat);
        if (r + 1) * (r + 1) <= n {
            r + 1
        } else {
            r
        }
    }
}

pub proof fn lemma_isqrt_bounds(n: nat)
    ensures
        spec_isqrt(n) * spec_isqrt(n) <= n,
        n < (spec_isqrt(n) + 1) * (spec_isqrt(n) + 1),
    decreases n,
{
    reveal_with_fuel(spec_isqrt, 2);
    let s = spec_isqrt(n);
    if n > 0 {
        lemma_isqrt_bounds((n - 1) as nat);
        let r = spec_isqrt((n - 1) as nat);
        if (r + 1) * (r + 1) <= n {
            assert(s == r + 1);
            assert(s * s <= n && n < (s + 1) * (s + 1)) by (nonlinear_arith)
                requires
                    s == r + 1,
                    (r + 1) * (r + 1) <= n,
                    n <= (r + 1) * (r + 1) + 2 * (r + 1),
            ;
        } else {
            assert(s == r);
            assert(s * s <= n && n < (s + 1) * (s + 1)) by (nonlinear_arith)
                requires
                    s == r,
                    r * r <= n,
                    !((r + 1) * (r + 1) <= n),
            ;
        }
    } else {
        assert(s == 0);
        assert(s * s <= n && n < (s + 1) * (s + 1)) by (nonlinear_arith)
            requires
                s == 0,
                n == 0,
        ;
    }
}

pub proof fn lemma_isqrt_unique(n: nat, r: nat)
    requires
        r * r <= n,
        n < (r + 1) * (r + 1),
    ensures
        r == spec_isqrt(n),
{
    lemma_isqrt_bounds(n);
    let s = spec_isqrt(n);
    if r < s {
        assert((r + 1) * (r + 1) <= s * s) by (nonlinear_arith)
            requires
                r + 1 <= s,
        ;
        assert(false);
    }
    if s < r {
        assert((s + 1) * (s + 1) <= r * r) by (nonlinear_arith)
            requires
                s + 1 <= r,
        ;
        assert(false);
    }
}

/// The integer square root, for arguments up to 255 * 255.
fn isqrt(n: u32) -> (r: u32)
    requires
        n <= 65025,
    ensures
        r as nat == spec_isqrt(n as nat),
        r <= 255,
{
    let mut r: u32 = 0;
    let mut sq: u32 = 1;
    while sq <= n
        invariant
            n <= 65025,
            r <= 255,
            sq == (r + 1) * (r + 1),
            (r as nat) * (r as nat) <= n as nat,
        decreases 256 - r,
    {
        proof {
            assert(r as int + 1 <= 255) by (nonlinear_arith)
                requires
                    (r as int + 1) * (r as int + 1) <= 65025,
            ;
            assert((r as int + 2) * (r as int + 2) == (r as int + 1) * (r as int + 1) + 2 * (r
                as int + 1) + 1) by (nonlinear_arith);
        }
        r = r + 1;
        sq = sq + 2 * r + 1;
    }
    proof {
        lemma_isqrt_unique(n as nat, r as nat);
    }
    r
}

/// One RGB channel of the compositing rule: the integer floor of
/// `sqrt(((255 - c) * b^2 + c * f^2) / 255)` over the foreground channel
/// `f` and the background channel `b`, so that full coverage yields the
/// foreground.
pub open spec fn spec_blend_channel(f: u8, b: u8, c: u8) -> u8 {
    spec_isqrt(
        (((255 - c as int) * ((b as int) * (b as int)) + (c as int) * ((f as int) * (f as int)))
            / 255) as nat,
    ) as u8
}

/// The alpha channel of the compositing rule: a plain linear interpolation
/// `((255 - c) * b + c * f) / 255` with floor rounding.
pub open spec fn spec_blend_alpha(f: u8, b: u8, c: u8) -> u8 {
    (((255 - c as int) * (b as int) + (c as int) * (f as int)) / 255) as u8
}

/// The whole compositing rule, applied channel by channel.
pub open spec fn spec_interp(fg: Color, bg: Color, cover: u8) -> Color {
    Color {
        r: spec_blend_channel(fg.r, bg.r, cover),
        g: spec_blend_channel(fg.g, bg.g, cover),
        b: spec_blend_channel(fg.b, bg.b, cover),
        a: spec_blend_alpha(fg.a, bg.a, cover),
    }
}

/// One blended RGB channel, in executable form.
fn blend_channel(f: u8, b: u8, c: u8) -> (r: u8)
    ensures
        r == spec_blend_channel(f, b, c),
{
    proof {
        assert((f as int) * (f as int) <= 65025 && (b as int) * (b as int) <= 65025)
            by (nonlinear_arith)
            requires
                0 <= f as int <= 255,
                0 <= b as int <= 255,
        ;
    }
    let f2: u32 = (f as u32) * (f as u32);
    let b2: u32 = (b as u32) * (b as u32);
    let cw: u32 = 255 - (c as u32);
    proof {
        assert((cw as int) * (b2 as int) + (c as int) * (f2 as int) <= 255 * 65025)
            by (nonlinear_arith)
            requires
                0 <= cw as int <= 255,
                0 <= c as int <= 255,
                cw as int + c as int == 255,
                0 <= f2 as int <= 65025,
                0 <= b2 as int <= 65025,
        ;
    }
    let w: u32 = (cw * b2 + (c as u32) * f2) / 255;
    let r = isqrt(w);
    r as u8
}

impl Color {
    /// Composite a foreground color onto a background color at a given
    /// coverage, by the square-root-of-weighted-squares rule for RGB and a
    /// linear interpolation for alpha: coverage 0 keeps the background,
    /// full coverage yields the foreground.
    pub fn interp(fg: Color, bg: Color, cover: u8) -> (c: Color)
        ensures
            c == spec_interp(fg, bg, cover),
    {
        let cw: u32 = 255 - (cover as u32);
        proof {
            assert((cw as int) * (bg.a as int) + (cover as int) * (fg.a as int) <= 255 * 255)
                by (nonlinear_arith)
                requires
                    0 <= cw as int <= 255,
                    0 <= cover as int <= 255,
                    cw as int + cover as int == 255,
                    0 <= fg.a as int <= 255,
                    0 <= bg.a as int <= 255,
            ;
        }
        let a: u32 = (cw * (bg.a as u32) + (cover as u32) * (fg.a as u32)) / 255;
        Color {
            r: blend_channel(fg.r, bg.r, cover),
            g: blend_channel(fg.g, bg.g, cover),
            b: blend_channel(fg.b, bg.b, cover),
            a: a as u8,
        }
    }
}

/// One channel of a color, by channel index 0..=3 (r, g, b, a).
pub open spec fn channel_of(c: Color, k: int) -> u8 {
    if k == 0 {
        c.r
    } else if k == 1 {
        c.g
    } else if k == 2 {
        c.b
    } else {
        c.a
    }
}

/// The pixel data of a cell uniformly filled with one color.
pub open spec fn spec_blank_data(color: Color) -> Seq<u8> {
    Seq::new((TILE_WIDTH * TILE_HEIGHT * 4) as nat, |i: int| channel_of(color, i % 4))
}

impl Glyph {
    /// The structural invariant: the pixel buffer holds exactly
    /// `width * height` RGBA8 pixels.
    pub open spec fn wf(&self) -> bool {
        self.width * self.height * 4 == self.data@.len()
    }

    /// The flat pixel index of the cell coordinate `(x, y)`: row-major,
    /// `y * width + x`. This one convention is applied uniformly everywhere
    /// a 2-D coordinate meets a linear buffer.
    pub open spec fn spec_pixel_start(&self, x: int, y: int) -> int {
        y * self.width + x
    }

    /// The color stored at the cell coordinate `(x, y)`.
    pub open spec fn spec_pixel(&self, x: int, y: int) -> Color {
        Color {
            r: self.data@[4 * self.spec_pixel_start(x, y)],
            g: self.data@[4 * self.spec_pixel_start(x, y) + 1],
            b: self.data@[4 * self.spec_pixel_start(x, y) + 2],
            a: self.data@[4 * self.spec_pixel_start(x, y) + 3],
        }
    }

    /// Whether the buffer length matches the dimensions.
    pub fn is_valid(&self) -> (r: bool)
        ensures
            r == self.wf(),
    {
        let len = self.data.len();
        match self.width.checked_mul(self.height) {
            Some(area) => match area.checked_mul(4) {
                Some(bytes) => bytes == len,
                None => false,
            },
            None => false,
        }
    }

    /// A cell of the fixed tile size, uniformly filled with one color.
    pub fn blank(color: Color) -> (g: Glyph)
        ensures
            g.width == TILE_WIDTH,
            g.height == TILE_HEIGHT,
            g.wf(),
            g.data@ == spec_blank_data(color),
            forall|x: int, y: int|
                0 <= x < TILE_WIDTH && 0 <= y < TILE_HEIGHT ==> #[trigger] g.spec_pixel(x, y)
                    == color,
    {
        let total: usize = TILE_WIDTH * TILE_HEIGHT;
        let mut data: Vec<u8> = Vec::new();
        let mut i: usize = 0;
        while i < total
            invariant
                i <= total,
                total == TILE_WIDTH * TILE_HEIGHT,
                data@.len() == 4 * i,
                forall|j: int| 0 <= j < data@.len() ==> data@[j] == channel_of(color, j % 4),
            decreases total - i,
        {
            data.push(color.r);
            data.push(color.g);
            data.push(color.b);
            data.push(color.a);
            i += 1;
        }
        proof {
            assert(data@ =~= spec_blank_data(color));
        }
        let g = Glyph { width: TILE_WIDTH, height: TILE_HEIGHT, data };
        proof {
            assert forall|x: int, y: int|
                0 <= x < TILE_WIDTH && 0 <= y < TILE_HEIGHT implies #[trigger] g.spec_pixel(x, y)
                == color by {
                let t = y * (TILE_WIDTH as int) + x;
                assert(0 <= t < TILE_WIDTH * TILE_HEIGHT) by (nonlinear_arith)
                    requires
                        0 <= x < TILE_WIDTH as int,
                        0 <= y < TILE_HEIGHT as int,
                        t == y * (TILE_WIDTH as int) + x,
                ;
                assert((4 * t) % 4 == 0 && (4 * t + 1) % 4 == 1 && (4 * t + 2) % 4 == 2 && (4 * t
                    + 3) % 4 == 3) by (nonlinear_arith);
            }
        }
        g
    }

    /// The flat pixel index of `(x, y)`, by the row-major convention.
    pub fn pixel_start(&self, x: usize, y: usize) -> (r: usize)
        requires
            self.wf(),
            x < self.width,
            y < self.height,
        ensures
            r == self.spec_pixel_start(x as int, y as int),
            4 * r + 3 < self.data@.len(),
    {
        proof {
            assert(self.data.len() == self.data@.len() && self.data.len() <= usize::MAX);
            assert(y * self.width + x < self.width * self.height) by (nonlinear_arith)
                requires
                    x < self.width,
                    y < self.height,
            ;
            assert(4 * (y * self.width + x) + 3 < self.width * self.height * 4)
                by (nonlinear_arith)
                requires
                    y * self.width + x < self.width * self.height,
            ;
        }
        y * self.width + x
    }

    /// Overwrite the pixel at the in-bounds coordinate `(x, y)`.
    pub fn set_pixel(&mut self, x: usize, y: usize, color: Color)
        requires
            old(self).wf(),
            x < old(self).width,
            y < old(self).height,
        ensures
            final(self).width == old(self).width,
            final(self).height == old(self).height,
            final(self).wf(),
            final(self).data@ == old(self).data@.update(
                4 * old(self).spec_pixel_start(x as int, y as int),
                color.r,
            ).update(4 * old(self).spec_pixel_start(x as int, y as int) + 1, color.g).update(
                4 * old(self).spec_pixel_start(x as int, y as int) + 2,
                color.b,
            ).update(4 * old(self).spec_pixel_start(x as int, y as int) + 3, color.a),
            final(self).spec_pixel(x as int, y as int) == color,
            forall|x2: int, y2: int|
                0 <= x2 < old(self).width && 0 <= y2 < old(self).height && (x2 != x || y2 != y)
                    ==> #[trigger] final(self).spec_pixel(x2, y2) == old(self).spec_pixel(x2, y2),
    {
        let idx = self.pixel_start(x, y);
        proof {
            assert(self.data.len() == self.data@.len() && self.data.len() <= usize::MAX);
        }
        self.data.set(idx * 4, color.r);
        self.data.set(idx * 4 + 1, color.g);
        self.data.set(idx * 4 + 2, color.b);
        self.data.set(idx * 4 + 3, color.a);
        proof {
            let w = old(self).width as int;
            let h = old(self).height as int;
            let t = (y as int) * w + (x as int);
            assert forall|x2: int, y2: int|
                0 <= x2 < old(self).width && 0 <= y2 < old(self).height && (x2 != x || y2 != y)
                    implies #[trigger] self.spec_pixel(x2, y2) == old(self).spec_pixel(
                x2,
                y2,
            ) by {
                let t2 = y2 * w + x2;
                assert(t2 != t) by (nonlinear_arith)
                    requires
                        0 <= (x as int) < w,
                        0 <= (y as int),
                        0 <= x2 < w,
                        0 <= y2,
                        x2 != x as int || y2 != y as int,
                        t == (y as int) * w + (x as int),
                        t2 == y2 * w + x2,
                ;
                assert(self.spec_pixel_start(x2, y2) == t2);
                assert(old(self).spec_pixel_start(x as int, y as int) == t);
                assert(0 <= t2 && t2 < w * h) by (nonlinear_arith)
                    requires
                        0 <= x2 < w,
                        0 <= y2 < h,
                        t2 == y2 * w + x2,
                ;
                assert(4 * t2 + 3 < old(self).data@.len());
                assert(self.data@[4 * t2] == old(self).data@[4 * t2]);
                assert(self.data@[4 * t2 + 1] == old(self).data@[4 * t2 + 1]);
                assert(self.data@[4 * t2 + 2] == old(self).data@[4 * t2 + 2]);
                assert(self.data@[4 * t2 + 3] == old(self).data@[4 * t2 + 3]);
            }
        }
    }
}

/// The pixel data after compositing a sequence of coverage points, in order,
/// onto `data`: each in-bounds point overwrites its pixel with the blend of
/// the foreground onto the background at its coverage; points outside the
/// cell are clipped and ignored. A later point for the same pixel wins.
pub open spec fn spec_apply(data: Seq<u8>, pts: Seq<CoverPoint>, fg: Color, bg: Color) -> Seq<u8>
    decreases pts.len(),
{
    if pts.len() == 0 {
        data
    } else {
        let rest = spec_apply(data, pts.drop_last(), fg, bg);
        let p = pts.last();
        if 0 <= p.x && (p.x as int) < TILE_WIDTH as int && 0 <= p.y && (p.y as int)
            < TILE_HEIGHT as int {
            let base = 4 * ((p.y as int) * (TILE_WIDTH as int) + (p.x as int));
            let c = spec_interp(fg, bg, p.cover);
            rest.update(base, c.r).update(base + 1, c.g).update(base + 2, c.b).update(
                base + 3,
                c.a,
            )
        } else {
            rest
        }
    }
}

/// The coverage of the first outline entry for `ch`, or no coverage at all
/// when the font holds none.
pub open spec fn spec_outline(outlines: Seq<GlyphOutline>, ch: char) -> Seq<CoverPoint>
    decreases outlines.len(),
{
    if outlines.len() == 0 {
        Seq::empty()
    } else if outlines.first().ch == ch {
        outlines.first().points@
    } else {
        spec_outline(outlines.drop_first(), ch)
    }
}

impl Font {
    /// A font resource from the rasterized coverage of its characters.
    pub fn new(outlines: Vec<GlyphOutline>) -> (f: Font)
        ensures
            f.outlines == outlines,
    {
        Font { outlines }
    }

    /// The coverage stored for `ch`, matching `spec_outline`.
    fn find_outline(&self, ch: char) -> (r: Option<&Vec<CoverPoint>>)
        ensures
            match r {
                Some(pts) => pts@ == spec_outline(self.outlines@, ch),
                None => spec_outline(self.outlines@, ch) == Seq::<CoverPoint>::empty(),
            },
    {
        let n = self.outlines.len();
        proof {
            assert(self.outlines@.subrange(0, n as int) =~= self.outlines@);
        }
        let mut i: usize = 0;
        while i < n
            invariant
                i <= n,
                n == self.outlines@.len(),
                spec_outline(self.outlines@, ch) == spec_outline(
                    self.outlines@.subrange(i as int, n as int),
                    ch,
                ),
                forall|j: int| 0 <= j < i ==> self.outlines@[j].ch != ch,
            decreases n - i,
        {
            proof {
                let tail = self.outlines@.subrange(i as int, n as int);
                assert(tail.first() == self.outlines@[i as int]);
                assert(tail.drop_first() =~= self.outlines@.subrange(i + 1, n as int));
            }
            if self.outlines[i].ch == ch {
                return Some(&self.outlines[i].points);
            }
            i += 1;
        }
        proof {
            assert(self.outlines@.subrange(n as int, n as int) =~= Seq::<GlyphOutline>::empty());
        }
        None
    }

    /// Rasterize one character against a foreground and a background color:
    /// start from a background-filled cell and composite the foreground at
    /// every in-bounds coverage point, in order. The resulting bitmap always
    /// holds exactly `width * height` RGBA8 pixels.
    pub fn glyph(&self, ch: char, fg: Color, bg: Color) -> (g: Glyph)
        ensures
            g.width == TILE_WIDTH,
            g.height == TILE_HEIGHT,
            g.wf(),
            g.data@.len() == TILE_WIDTH * TILE_HEIGHT * 4,
            g.data@ == spec_apply(spec_blank_data(bg), spec_outline(self.outlines@, ch), fg, bg),
    {
        let mut out = Glyph::blank(bg);
        let pts_opt = self.find_outline(ch);
        match pts_opt {
            None => out,
            Some(pts) => {
                let n = pts.len();
                let mut i: usize = 0;
                while i < n
                    invariant
                        i <= n,
                        n == pts@.len(),
                        out.width == TILE_WIDTH,
                        out.height == TILE_HEIGHT,
                        out.wf(),
                        out.data@ == spec_apply(
                            spec_blank_data(bg),
                            pts@.subrange(0, i as int),
                            fg,
                            bg,
                        ),
                    decreases n - i,
                {
                    proof {
                        let pre = pts@.subrange(0, i as int);
                        let cur = pts@.subrange(0, i + 1);
                        assert(cur.drop_last() =~= pre);
                        assert(cur.last() == pts@[i as int]);
                    }
                    let p = pts[i];
                    if p.x >= 0 && p.x < TILE_WIDTH as i32 && p.y >= 0 && p.y < TILE_HEIGHT
                        as i32 {
                        let c = Color::interp(fg, bg, p.cover);
                        out.set_pixel(p.x as usize, p.y as usize, c);
                    }
                    i += 1;
                }
                proof {
                    assert(pts@.subrange(0, n as int) =~= pts@);
                }
                out
            },
        }
    }
}

} // verus!
