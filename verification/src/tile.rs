//! The attribute grammar parser: one tile's declared attributes, validated
//! into a tile definition.
//!
//! Each attribute of a tile is one line of text. The recognized productions,
//! after surrounding spaces are stripped, are:
//!
//! - `default` — a bare marker; at most one tile of the whole set may carry
//!   it.
//! - `char = <single character>` — required exactly once per tile; a second
//!   occurrence is a `DuplicateChar` error.
//! - `fg_color = <color expression>` — optional; absent defaults to `white`.
//! - `bg_color = <color expression>` — optional; absent defaults to `black`.
//!
//! Any attribute matching none of these productions is an
//! `UnknownAttribute` error. Attribute order within one tile is irrelevant,
//! except that a repeated color attribute keeps its last occurrence.

use crate::color::is_space;
use crate::color::to_chars;
use vstd::prelude::*;

verus! {

/// Why a tile declaration or a tile-set aggregation failed.
#[derive(Debug, Copy, Clone, PartialEq, Eq, Structural)]
pub enum GrammarError {
    /// An attribute matched none of the recognized productions.
    UnknownAttribute,
    /// A tile declared `char` more than once.
    DuplicateChar,
    /// A tile declared no `char` attribute.
    MissingChar,
    /// No tile of the set carried the `default` marker.
    MissingDefault,
    /// More than one `default` marker, in one tile or across the set.
    DuplicateDefault,
}

/// One parsed attribute of a tile declaration.
#[derive(Debug, Clone)]
pub enum TileAttr {
    Char(char),
    Default,
    FgColor(String),
    BgColor(String),
}

/// The spec-level shape of one parsed attribute, over character sequences.
pub enum AttrShape {
    Char(char),
    Default,
    FgColor(Seq<char>),
    BgColor(Seq<char>),
}

impl TileAttr {
    /// The spec-level shape of this attribute.
    pub open spec fn shape(&self) -> AttrShape {
        match self {
            TileAttr::Char(c) => AttrShape::Char(*c),
            TileAttr::Default => AttrShape::Default,
            TileAttr::FgColor(s) => AttrShape::FgColor(s@),
            TileAttr::BgColor(s) => AttrShape::BgColor(s@),
        }
    }
}

/// The first non-space position in `[lo, hi)`, or `hi`.
pub open spec fn trim_lo(s: Seq<char>, lo: int, hi: int) -> int
    recommends
        0 <= lo <= hi <= s.len(),
    decreases hi - lo,
{
    if lo < hi && is_space(s[lo]) {
        trim_lo(s, lo + 1, hi)
    } else {
        lo
    }
}

/// The position just past the last non-space character in `[lo, hi)`, or
/// `lo`.
pub open spec fn trim_hi(s: Seq<char>, lo: int, hi: int) -> int
    recommends
        0 <= lo <= hi <= s.len(),
    decreases hi - lo,
{
    if hi > lo && is_space(s[hi - 1]) {
        trim_hi(s, lo, hi - 1)
    } else {
        hi
    }
}

/// The span `[lo, hi)` with surrounding spaces stripped.
pub open spec fn trimmed_span(s: Seq<char>, lo: int, hi: int) -> Seq<char>
    recommends
        0 <= lo <= hi <= s.len(),
{
    let a = trim_lo(s, lo, hi);
    let b = trim_hi(s, a, hi);
    s.subrange(a, b)
}

/// The first position at or after `i` holding `=`, or the end.
pub open spec fn find_eq(s: Seq<char>, i: int) -> int
    recommends
        0 <= i <= s.len(),
    decreases s.len() - i,
{
    if i < s.len() && s[i] != '=' {
        find_eq(s, i + 1)
    } else {
        i
    }
}

/// What one attribute line parses to: the `default` marker, or a
/// `key = value` pair with a recognized key, or an `UnknownAttribute`
/// error.
pub open spec fn spec_parse_attr(s: Seq<char>) -> Result<AttrShape, GrammarError> {
    let e = find_eq(s, 0);
    if e == s.len() {
        if trimmed_span(s, 0, s.len() as int) == "default"@ {
            Ok(AttrShape::Default)
        } else {
            Err(GrammarError::UnknownAttribute)
        }
    } else {
        let key = trimmed_span(s, 0, e);
        let val = trimmed_span(s, e + 1, s.len() as int);
        if key == "char"@ {
            if val.len() == 1 {
                Ok(AttrShape::Char(val[0]))
            } else {
                Err(GrammarError::UnknownAttribute)
            }
        } else if key == "fg_color"@ {
            Ok(AttrShape::FgColor(val))
        } else if key == "bg_color"@ {
            Ok(AttrShape::BgColor(val))
        } else {
            Err(GrammarError::UnknownAttribute)
        }
    }
}

/// The first non-space position, in executable form.
fn trim_lo_x(v: &Vec<char>, lo: usize, hi: usize) -> (r: usize)
    requires
        lo <= hi <= v@.len(),
    ensures
        r == trim_lo(v@, lo as int, hi as int),
        lo <= r <= hi,
{
    let mut i = lo;
    while i < hi && v[i] == ' '
        invariant
            lo <= i <= hi <= v@.len(),
            trim_lo(v@, lo as int, hi as int) == trim_lo(v@, i as int, hi as int),
        decreases hi - i,
    {
        i += 1;
    }
    i
}

/// The position just past the last non-space character, in executable form.
fn trim_hi_x(v: &Vec<char>, lo: usize, hi: usize) -> (r: usize)
    requires
        lo <= hi <= v@.len(),
    ensures
        r == trim_hi(v@, lo as int, hi as int),
        lo <= r <= hi,
{
    let mut i = hi;
    while i > lo && v[i - 1] == ' '
        invariant
            lo <= i <= hi <= v@.len(),
            trim_hi(v@, lo as int, hi as int) == trim_hi(v@, lo as int, i as int),
        decreases i,
    {
        i -= 1;
    }
    i
}

/// The first `=` at or after `from`, in executable form.
fn find_eq_x(v: &Vec<char>, from: usize) -> (r: usize)
    requires
        from <= v@.len(),
    ensures
        r == find_eq(v@, from as int),
        from <= r <= v@.len(),
{
    let mut i = from;
    while i < v.len() && v[i] != '='
        invariant
            from <= i <= v@.len(),
            find_eq(v@, from as int) == find_eq(v@, i as int),
        decreases v@.len() - i,
    {
        i += 1;
    }
    i
}

/// Whether the span `[lo, hi)` of the characters equals a literal.
fn span_eq(v: &Vec<char>, lo: usize, hi: usize, lit: &str) -> (r: bool)
    requires
        lo <= hi <= v@.len(),
    ensures
        r <==> v@.subrange(lo as int, hi as int) == lit@,
{
    let n = lit.unicode_len();
    if hi - lo != n {
        return false;
    }
    let mut i: usize = 0;
    while i < n
        invariant
            i <= n,
            n == lit@.len(),
            lo <= hi <= v@.len(),
            hi - lo == n,
            forall|j: int| 0 <= j < i ==> v@[lo + j] == lit@[j],
        decreases n - i,
    {
        if v[lo + i] != lit.get_char(i) {
            proof {
                assert(v@.subrange(lo as int, hi as int)[i as int] != lit@[i as int]);
            }
            return false;
        }
        i += 1;
    }
    proof {
        assert(v@.subrange(lo as int, hi as int) =~= lit@);
    }
    true
}

/// Parse one attribute line, or say why it is not recognized.
pub fn parse_attr(s: &str) -> (r: Result<TileAttr, GrammarError>)
    ensures
        match r {
            Ok(attr) => spec_parse_attr(s@) == Ok::<AttrShape, GrammarError>(attr.shape()),
            Err(e) => spec_parse_attr(s@) == Err::<AttrShape, GrammarError>(e),
        },
{
    let chars = to_chars(s);
    let n = chars.len();
    let e = find_eq_x(&chars, 0);
    if e == n {
        let a = trim_lo_x(&chars, 0, n);
        let b = trim_hi_x(&chars, a, n);
        if span_eq(&chars, a, b, "default") {
            Ok(TileAttr::Default)
        } else {
            Err(GrammarError::UnknownAttribute)
        }
    } else {
        let ka = trim_lo_x(&chars, 0, e);
        let kb = trim_hi_x(&chars, ka, e);
        let va = trim_lo_x(&chars, e + 1, n);
        let vb = trim_hi_x(&chars, va, n);
        if span_eq(&chars, ka, kb, "char") {
            if vb - va == 1 {
                Ok(TileAttr::Char(chars[va]))
            } else {
                Err(GrammarError::UnknownAttribute)
            }
        } else if span_eq(&chars, ka, kb, "fg_color") {
            let val = s.substring_char(va, vb);
            Ok(TileAttr::FgColor(String::from_str(val)))
        } else if span_eq(&chars, ka, kb, "bg_color") {
            let val = s.substring_char(va, vb);
            Ok(TileAttr::BgColor(String::from_str(val)))
        } else {
            Err(GrammarError::UnknownAttribute)
        }
    }
}

/// A validated tile declaration: display character, default marker, and the
/// two color expressions (still unresolved strings here).
#[derive(Debug, Clone)]
pub struct TileDefinition {
    pub name: String,
    pub character: char,
    pub is_default: bool,
    pub fg_color_expr: String,
    pub bg_color_expr: String,
}

/// The spec-level shape of a tile definition, over character sequences.
pub struct TileDefShape {
    pub name: Seq<char>,
    pub character: char,
    pub is_default: bool,
    pub fg_color_expr: Seq<char>,
    pub bg_color_expr: Seq<char>,
}

impl View for TileDefinition {
    type V = TileDefShape;

    open spec fn view(&self) -> TileDefShape {
        TileDefShape {
            name: self.name@,
            character: self.character,
            is_default: self.is_default,
            fg_color_expr: self.fg_color_expr@,
            bg_color_expr: self.bg_color_expr@,
        }
    }
}

/// The fold that validates one tile's attribute list, from attribute `i` on,
/// carrying the character seen so far, the default marker, and the current
/// color expressions (a repeated color attribute keeps its last occurrence).
pub open spec fn spec_parse_tile_from(
    name: Seq<char>,
    attrs: Seq<Seq<char>>,
    i: int,
    ch: Option<char>,
    dflt: bool,
    fg: Seq<char>,
    bg: Seq<char>,
) -> Result<TileDefShape, GrammarError>
    decreases attrs.len() - i,
{
    if i < attrs.len() {
        match spec_parse_attr(attrs[i]) {
            Err(e) => Err(e),
            Ok(shape) => match shape {
                AttrShape::Char(c) => if ch is Some {
                    Err(GrammarError::DuplicateChar)
                } else {
                    spec_parse_tile_from(name, attrs, i + 1, Some(c), dflt, fg, bg)
                },
                AttrShape::Default => if dflt {
                    Err(GrammarError::DuplicateDefault)
                } else {
                    spec_parse_tile_from(name, attrs, i + 1, ch, true, fg, bg)
                },
                AttrShape::FgColor(v) => spec_parse_tile_from(name, attrs, i + 1, ch, dflt, v, bg),
                AttrShape::BgColor(v) => spec_parse_tile_from(name, attrs, i + 1, ch, dflt, fg, v),
            },
        }
    } else {
        match ch {
            None => Err(GrammarError::MissingChar),
            Some(c) => Ok(
                TileDefShape {
                    name,
                    character: c,
                    is_default: dflt,
                    fg_color_expr: fg,
                    bg_color_expr: bg,
                },
            ),
        }
    }
}

/// What one tile's raw attribute list validates to: a tile definition, or
/// the first grammar error in attribute order. An absent `fg_color`
/// defaults to `white`, an absent `bg_color` to `black`.
pub open spec fn spec_parse_tile(name: Seq<char>, attrs: Seq<Seq<char>>) -> Result<
    TileDefShape,
    GrammarError,
> {
    spec_parse_tile_from(name, attrs, 0, None, false, "white"@, "black"@)
}

/// Validate one tile's raw attribute list into a tile definition, or fail
/// with the first grammar error in attribute order.
pub fn parse_tile(name: &str, attrs: &Vec<String>) -> (r: Result<TileDefinition, GrammarError>)
    ensures
        match r {
            Ok(d) => spec_parse_tile(name@, attrs.deep_view()) == Ok::<TileDefShape, GrammarError>(
                d@,
            ),
            Err(e) => spec_parse_tile(name@, attrs.deep_view()) == Err::<
                TileDefShape,
                GrammarError,
            >(e),
        },
{
    let mut ch: Option<char> = None;
    let mut dflt: bool = false;
    let mut fg: String = String::from_str("white");
    let mut bg: String = String::from_str("black");
    let n = attrs.len();
    let mut i: usize = 0;
    while i < n
        invariant
            i <= n,
            n == attrs@.len(),
            spec_parse_tile(name@, attrs.deep_view()) == spec_parse_tile_from(
                name@,
                attrs.deep_view(),
                i as int,
                ch,
                dflt,
                fg@,
                bg@,
            ),
        decreases n - i,
    {
        proof {
            assert(attrs.deep_view()[i as int] == attrs@[i as int]@);
        }
        match parse_attr(attrs[i].as_str()) {
            Err(e) => {
                return Err(e);
            },
            Ok(TileAttr::Char(c)) => {
                if ch.is_some() {
                    return Err(GrammarError::DuplicateChar);
                }
                ch = Some(c);
            },
            Ok(TileAttr::Default) => {
                if dflt {
                    return Err(GrammarError::DuplicateDefault);
                }
                dflt = true;
            },
            Ok(TileAttr::FgColor(v)) => {
                fg = v;
            },
            Ok(TileAttr::BgColor(v)) => {
                bg = v;
            },
        }
        i += 1;
    }
    match ch {
        None => Err(GrammarError::MissingChar),
        Some(c) => Ok(
            TileDefinition {
                name: String::from_str(name),
                character: c,
                is_default: dflt,
                fg_color_expr: fg,
                bg_color_expr: bg,
            },
        ),
    }
}

} // verus!
