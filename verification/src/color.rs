//! Color values and the color expression resolver.
//!
//! A color expression is resolved against a fixed grammar, trying each form in
//! a fixed fallback order: a case-insensitive named lookup, the functional
//! `hsl(h, s, l)` form, the `#rrggbb` hex form, and the functional
//! `rgb(r, g, b)` form. The forms have distinct leading tokens, so the first
//! match wins. Resolution is a pure function of the input string alone.

use vstd::prelude::*;

verus! {

/// An 8-bit-per-channel RGBA color value, immutable once resolved.
#[derive(Debug, Copy, Clone, PartialEq, Eq, Structural)]
pub struct Color {
    pub r: u8,
    pub g: u8,
    pub b: u8,
    pub a: u8,
}

/// Why a color expression failed to resolve.
#[derive(Debug, Copy, Clone, PartialEq, Eq, Structural)]
pub enum ColorResolutionError {
    /// An `hsl` saturation or lightness component lies outside 0..=100.
    InvalidRange,
    /// A syntactically valid `hsl` expression: no HSL-to-RGB conversion is
    /// wired up, so resolving one always fails rather than guessing a value.
    UnsupportedColorForm,
    /// No form of the grammar matched the input.
    UnrecognizedColorExpression,
}

/// An opaque color value, in spec form.
pub open spec fn srgb(r: u8, g: u8, b: u8) -> Color {
    Color { r, g, b, a: 255 }
}

pub open spec fn is_space(c: char) -> bool {
    c == ' '
}

pub open spec fn is_digit(c: char) -> bool {
    '0' <= c && c <= '9'
}

pub open spec fn digit_val(c: char) -> int {
    c as int - '0' as int
}

pub open spec fn is_hex_digit(c: char) -> bool {
    is_digit(c) || ('a' <= c && c <= 'f') || ('A' <= c && c <= 'F')
}

pub open spec fn hex_val(c: char) -> int {
    if is_digit(c) {
        digit_val(c)
    } else if 'a' <= c && c <= 'f' {
        c as int - 'a' as int + 10
    } else {
        c as int - 'A' as int + 10
    }
}

/// ASCII lowercasing of one character; everything else is untouched.
pub open spec fn lower_char(c: char) -> char {
    if 'A' <= c && c <= 'Z' {
        ((c as u8) + 32) as char
    } else {
        c
    }
}

/// ASCII lowercasing of a whole string.
pub open spec fn lower_seq(s: Seq<char>) -> Seq<char> {
    Seq::new(s.len(), |i: int| lower_char(s[i]))
}

/// The first position at or after `i` that does not hold a space (or the end).
pub open spec fn skip_ws(s: Seq<char>, i: int) -> int
    recommends
        0 <= i <= s.len(),
    decreases s.len() - i,
{
    if i < s.len() && is_space(s[i]) {
        skip_ws(s, i + 1)
    } else {
        i
    }
}

/// The end of the maximal run of decimal digits starting at `i`.
pub open spec fn digit_run_end(s: Seq<char>, i: int) -> int
    recommends
        0 <= i <= s.len(),
    decreases s.len() - i,
{
    if i < s.len() && is_digit(s[i]) {
        digit_run_end(s, i + 1)
    } else {
        i
    }
}

/// The decimal value of the digits `s[i..j]`.
pub open spec fn num_val(s: Seq<char>, i: int, j: int) -> int
    recommends
        0 <= i <= j <= s.len(),
    decreases j - i,
{
    if i < j {
        num_val(s, i, j - 1) * 10 + digit_val(s[j - 1])
    } else {
        0
    }
}

/// A numeric component at position `i`: the maximal digit run there, which
/// must hold one to three digits with a value of at most 255. Yields the
/// value and the position just past the digits.
pub open spec fn spec_component(s: Seq<char>, i: int) -> Option<(int, int)>
    recommends
        0 <= i <= s.len(),
{
    let j = digit_run_end(s, i);
    if i < j && j - i <= 3 && num_val(s, i, j) <= 255 {
        Some((num_val(s, i, j), j))
    } else {
        None
    }
}

/// The argument list of a functional form, starting just after the opening
/// keyword: `( ws* n ws* , ws* n ws* , ws* n ws* )` followed by the end of
/// the input. Yields the three component values.
pub open spec fn spec_func_args(s: Seq<char>, i: int) -> Option<(int, int, int)>
    recommends
        0 <= i <= s.len(),
{
    if i < s.len() && s[i] == '(' {
        let i1 = skip_ws(s, i + 1);
        match spec_component(s, i1) {
            None => None,
            Some((v1, i2)) => {
                let i3 = skip_ws(s, i2);
                if i3 < s.len() && s[i3] == ',' {
                    let i4 = skip_ws(s, i3 + 1);
                    match spec_component(s, i4) {
                        None => None,
                        Some((v2, i5)) => {
                            let i6 = skip_ws(s, i5);
                            if i6 < s.len() && s[i6] == ',' {
                                let i7 = skip_ws(s, i6 + 1);
                                match spec_component(s, i7) {
                                    None => None,
                                    Some((v3, i8)) => {
                                        let i9 = skip_ws(s, i8);
                                        if i9 + 1 == s.len() && s[i9] == ')' {
                                            Some((v1, v2, v3))
                                        } else {
                                            None
                                        }
                                    },
                                }
                            } else {
                                None
                            }
                        },
                    }
                } else {
                    None
                }
            },
        }
    } else {
        None
    }
}

/// The `#rrggbb` form: a hash sign followed by exactly six hexadecimal
/// digits, two per channel, with alpha fixed at 255.
pub open spec fn spec_hex(s: Seq<char>) -> Option<Color> {
    if s.len() == 7 && s[0] == '#' && is_hex_digit(s[1]) && is_hex_digit(s[2]) && is_hex_digit(
        s[3],
    ) && is_hex_digit(s[4]) && is_hex_digit(s[5]) && is_hex_digit(s[6]) {
        Some(
            Color {
                r: (hex_val(s[1]) * 16 + hex_val(s[2])) as u8,
                g: (hex_val(s[3]) * 16 + hex_val(s[4])) as u8,
                b: (hex_val(s[5]) * 16 + hex_val(s[6])) as u8,
                a: 255,
            },
        )
    } else {
        None
    }
}

/// The `rgb(r, g, b)` form, case-sensitive keyword included.
pub open spec fn spec_rgb(s: Seq<char>) -> Option<(int, int, int)> {
    if s.len() >= 3 && s[0] == 'r' && s[1] == 'g' && s[2] == 'b' {
        spec_func_args(s, 3)
    } else {
        None
    }
}

/// The `hsl(h, s, l)` form, case-sensitive keyword included.
pub open spec fn spec_hsl(s: Seq<char>) -> Option<(int, int, int)> {
    if s.len() >= 3 && s[0] == 'h' && s[1] == 's' && s[2] == 'l' {
        spec_func_args(s, 3)
    } else {
        None
    }
}

/// The characters of a string slice, one by one.
pub(crate) fn to_chars(s: &str) -> (v: Vec<char>)
    ensures
        v@ == s@,
{
    let n = s.unicode_len();
    let mut v: Vec<char> = Vec::new();
    let mut i: usize = 0;
    while i < n
        invariant
            i <= n,
            n == s@.len(),
            v@ == s@.subrange(0, i as int),
        decreases n - i,
    {
        v.push(s.get_char(i));
        i += 1;
        proof {
            assert(v@ =~= s@.subrange(0, i as int));
        }
    }
    proof {
        assert(v@ =~= s@);
    }
    v
}

/// An ASCII-lowercased copy of the characters.
fn lower_chars(v: &Vec<char>) -> (w: Vec<char>)
    ensures
        w@ == lower_seq(v@),
{
    let mut w: Vec<char> = Vec::new();
    let mut i: usize = 0;
    while i < v.len()
        invariant
            i <= v@.len(),
            w@ == lower_seq(v@).subrange(0, i as int),
        decreases v@.len() - i,
    {
        let c = v[i];
        let lc: char = if c >= 'A' && c <= 'Z' {
            ((c as u8) + 32) as char
        } else {
            c
        };
        proof {
            assert(lc == lower_char(c));
        }
        w.push(lc);
        i += 1;
        proof {
            assert(w@ =~= lower_seq(v@).subrange(0, i as int));
        }
    }
    proof {
        assert(w@ =~= lower_seq(v@));
    }
    w
}

/// Advances past any spaces, matching `skip_ws`.
fn skip_spaces(v: &Vec<char>, from: usize) -> (r: usize)
    requires
        from <= v@.len(),
    ensures
        r == skip_ws(v@, from as int),
        from <= r <= v@.len(),
{
    let mut i = from;
    while i < v.len() && v[i] == ' '
        invariant
            from <= i <= v@.len(),
            skip_ws(v@, from as int) == skip_ws(v@, i as int),
        decreases v@.len() - i,
    {
        i += 1;
    }
    i
}

/// The end of the maximal digit run, matching `digit_run_end`.
fn digit_run(v: &Vec<char>, from: usize) -> (r: usize)
    requires
        from <= v@.len(),
    ensures
        r == digit_run_end(v@, from as int),
        from <= r <= v@.len(),
        forall|k: int| from <= k < r ==> is_digit(v@[k]),
{
    let mut i = from;
    while i < v.len() && v[i] >= '0' && v[i] <= '9'
        invariant
            from <= i <= v@.len(),
            digit_run_end(v@, from as int) == digit_run_end(v@, i as int),
            forall|k: int| from <= k < i ==> is_digit(v@[k]),
        decreases v@.len() - i,
    {
        i += 1;
    }
    i
}

/// A numeric component at `from`, matching `spec_component`.
fn parse_component(v: &Vec<char>, from: usize) -> (r: Option<(u8, usize)>)
    requires
        from <= v@.len(),
    ensures
        match r {
            Some(p) => spec_component(v@, from as int) == Some((p.0 as int, p.1 as int)) && from
                < p.1 <= v@.len(),
            None => spec_component(v@, from as int) is None,
        },
{
    let j = digit_run(v, from);
    let len = j - from;
    if len == 0 || len > 3 {
        return None;
    }
    let d0: u32 = (v[from] as u8 - 48) as u32;
    let val: u32 = if len == 1 {
        d0
    } else if len == 2 {
        let d1: u32 = (v[from + 1] as u8 - 48) as u32;
        d0 * 10 + d1
    } else {
        let d1: u32 = (v[from + 1] as u8 - 48) as u32;
        let d2: u32 = (v[from + 2] as u8 - 48) as u32;
        d0 * 100 + d1 * 10 + d2
    };
    proof {
        assert(num_val(v@, from as int, from as int) == 0);
        assert(num_val(v@, from as int, from + 1) == digit_val(v@[from as int]));
        if len >= 2 {
            assert(num_val(v@, from as int, from + 2) == num_val(v@, from as int, from + 1) * 10
                + digit_val(v@[from + 1]));
        }
        if len == 3 {
            assert(num_val(v@, from as int, from + 3) == num_val(v@, from as int, from + 2) * 10
                + digit_val(v@[from + 2]));
        }
        assert(val == num_val(v@, from as int, j as int));
    }
    if val <= 255 {
        Some((val as u8, j))
    } else {
        None
    }
}

/// The argument list of a functional form, matching `spec_func_args`.
fn parse_func_args(v: &Vec<char>, from: usize) -> (r: Option<(u8, u8, u8)>)
    requires
        from <= v@.len(),
    ensures
        match r {
            Some(t) => spec_func_args(v@, from as int) == Some(
                (t.0 as int, t.1 as int, t.2 as int),
            ),
            None => spec_func_args(v@, from as int) is None,
        },
{
    if !(from < v.len() && v[from] == '(') {
        return None;
    }
    let i1 = skip_spaces(v, from + 1);
    let c1 = parse_component(v, i1);
    if c1.is_none() {
        return None;
    }
    let (v1, i2) = c1.unwrap();
    let i3 = skip_spaces(v, i2);
    if !(i3 < v.len() && v[i3] == ',') {
        return None;
    }
    let i4 = skip_spaces(v, i3 + 1);
    let c2 = parse_component(v, i4);
    if c2.is_none() {
        return None;
    }
    let (v2, i5) = c2.unwrap();
    let i6 = skip_spaces(v, i5);
    if !(i6 < v.len() && v[i6] == ',') {
        return None;
    }
    let i7 = skip_spaces(v, i6 + 1);
    let c3 = parse_component(v, i7);
    if c3.is_none() {
        return None;
    }
    let (v3, i8) = c3.unwrap();
    let i9 = skip_spaces(v, i8);
    if i9 < v.len() && v[i9] == ')' && i9 + 1 == v.len() {
        Some((v1, v2, v3))
    } else {
        None
    }
}

/// One hexadecimal digit's value.
fn hex_digit_val(c: char) -> (r: u8)
    requires
        is_hex_digit(c),
    ensures
        r as int == hex_val(c),
        r < 16,
{
    if c >= '0' && c <= '9' {
        c as u8 - 48
    } else if c >= 'a' && c <= 'f' {
        c as u8 - 87
    } else {
        c as u8 - 55
    }
}

/// The `#rrggbb` form, matching `spec_hex`.
fn parse_hex(v: &Vec<char>) -> (r: Option<Color>)
    ensures
        r == spec_hex(v@),
{
    if v.len() != 7 || v[0] != '#' {
        return None;
    }
    let mut k: usize = 1;
    while k < 7
        invariant
            1 <= k <= 7,
            v@.len() == 7,
            forall|j: int| 1 <= j < k ==> is_hex_digit(v@[j]),
        decreases 7 - k,
    {
        let c = v[k];
        let ok = (c >= '0' && c <= '9') || (c >= 'a' && c <= 'f') || (c >= 'A' && c <= 'F');
        if !ok {
            return None;
        }
        k += 1;
    }
    let r8 = hex_digit_val(v[1]) * 16 + hex_digit_val(v[2]);
    let g8 = hex_digit_val(v[3]) * 16 + hex_digit_val(v[4]);
    let b8 = hex_digit_val(v[5]) * 16 + hex_digit_val(v[6]);
    Some(Color { r: r8, g: g8, b: b8, a: 255 })
}

/// The named-color table: a case-insensitive lookup over a fixed set of
/// standard color keywords. `s` is expected already lowercased.
pub open spec fn spec_named(s: Seq<char>) -> Option<Color> {
    match spec_named_reds(s) {
        Some(c) => Some(c),
        None => match spec_named_yellows(s) {
            Some(c) => Some(c),
            None => match spec_named_purples(s) {
                Some(c) => Some(c),
                None => match spec_named_greens(s) {
                    Some(c) => Some(c),
                    None => match spec_named_blues(s) {
                        Some(c) => Some(c),
                        None => match spec_named_browns(s) {
                            Some(c) => Some(c),
                            None => spec_named_whites_grays(s),
                        },
                    },
                },
            },
        },
    }
}

/// Whether the characters equal those of a literal.
fn chars_eq(v: &Vec<char>, lit: &str) -> (r: bool)
    ensures
        r <==> v@ == lit@,
{
    let n = lit.unicode_len();
    if v.len() != n {
        return false;
    }
    let mut i: usize = 0;
    while i < n
        invariant
            i <= n,
            n == lit@.len(),
            v@.len() == n,
            forall|j: int| 0 <= j < i ==> v@[j] == lit@[j],
        decreases n - i,
    {
        if v[i] != lit.get_char(i) {
            return false;
        }
        i += 1;
    }
    proof {
        assert(v@ =~= lit@);
    }
    true
}

/// The red, pink and orange rows of the named-color table.
pub open spec fn spec_named_reds(s: Seq<char>) -> Option<Color> {
    if s == "indianred"@ {
        Some(srgb(205, 92, 92))
    } else if s == "lightcoral"@ {
        Some(srgb(240, 128, 128))
    } else if s == "salmon"@ {
        Some(srgb(250, 128, 114))
    } else if s == "darksalmon"@ {
        Some(srgb(233, 150, 122))
    } else if s == "lightsalmon"@ {
        Some(srgb(255, 160, 122))
    } else if s == "crimson"@ {
        Some(srgb(220, 20, 60))
    } else if s == "red"@ {
        Some(srgb(255, 0, 0))
    } else if s == "firebrick"@ {
        Some(srgb(178, 34, 34))
    } else if s == "darkred"@ {
        Some(srgb(139, 0, 0))
    } else if s == "pink"@ {
        Some(srgb(255, 192, 203))
    } else if s == "lightpink"@ {
        Some(srgb(255, 182, 193))
    } else if s == "hotpink"@ {
        Some(srgb(255, 105, 180))
    } else if s == "deeppink"@ {
        Some(srgb(255, 20, 147))
    } else if s == "mediumvioletred"@ {
        Some(srgb(199, 21, 133))
    } else if s == "palevioletred"@ {
        Some(srgb(219, 112, 147))
    } else if s == "coral"@ {
        Some(srgb(255, 127, 80))
    } else if s == "tomato"@ {
        Some(srgb(255, 99, 71))
    } else if s == "orangered"@ {
        Some(srgb(255, 69, 0))
    } else if s == "darkorange"@ {
        Some(srgb(255, 140, 0))
    } else if s == "orange"@ {
        Some(srgb(255, 165, 0))
    } else {
        None
    }
}

/// The yellow rows of the named-color table.
pub open spec fn spec_named_yellows(s: Seq<char>) -> Option<Color> {
    if s == "gold"@ {
        Some(srgb(255, 215, 0))
    } else if s == "yellow"@ {
        Some(srgb(255, 255, 0))
    } else if s == "lightyellow"@ {
        Some(srgb(255, 255, 224))
    } else if s == "lemonchiffon"@ {
        Some(srgb(255, 250, 205))
    } else if s == "lightgoldenrodyellow"@ {
        Some(srgb(250, 250, 210))
    } else if s == "papayawhip"@ {
        Some(srgb(255, 239, 213))
    } else if s == "moccasin"@ {
        Some(srgb(255, 228, 181))
    } else if s == "peachpuff"@ {
        Some(srgb(255, 218, 185))
    } else if s == "palegoldenrod"@ {
        Some(srgb(238, 232, 170))
    } else if s == "khaki"@ {
        Some(srgb(240, 230, 140))
    } else if s == "darkkhaki"@ {
        Some(srgb(189, 183, 107))
    } else {
        None
    }
}

/// The purple rows of the named-color table.
pub open spec fn spec_named_purples(s: Seq<char>) -> Option<Color> {
    if s == "lavender"@ {
        Some(srgb(230, 230, 250))
    } else if s == "thistle"@ {
        Some(srgb(216, 191, 216))
    } else if s == "plum"@ {
        Some(srgb(221, 160, 221))
    } else if s == "violet"@ {
        Some(srgb(238, 130, 238))
    } else if s == "orchid"@ {
        Some(srgb(218, 112, 214))
    } else if s == "fuchsia"@ {
        Some(srgb(255, 0, 255))
    } else if s == "magenta"@ {
        Some(srgb(255, 0, 255))
    } else if s == "mediumorchid"@ {
        Some(srgb(186, 85, 211))
    } else if s == "mediumpurple"@ {
        Some(srgb(147, 112, 219))
    } else if s == "rebeccapurple"@ {
        Some(srgb(102, 51, 153))
    } else if s == "blueviolet"@ {
        Some(srgb(138, 43, 226))
    } else if s == "darkviolet"@ {
        Some(srgb(148, 0, 211))
    } else if s == "darkorchid"@ {
        Some(srgb(153, 50, 204))
    } else if s == "darkmagenta"@ {
        Some(srgb(139, 0, 139))
    } else if s == "purple"@ {
        Some(srgb(128, 0, 128))
    } else if s == "indigo"@ {
        Some(srgb(75, 0, 130))
    } else if s == "slateblue"@ {
        Some(srgb(106, 90, 205))
    } else if s == "darkslateblue"@ {
        Some(srgb(72, 61, 139))
    } else if s == "mediumslateblue"@ {
        Some(srgb(123, 104, 238))
    } else {
        None
    }
}

/// The green rows of the named-color table.
pub open spec fn spec_named_greens(s: Seq<char>) -> Option<Color> {
    if s == "greenyellow"@ {
        Some(srgb(173, 255, 47))
    } else if s == "chartreuse"@ {
        Some(srgb(127, 255, 0))
    } else if s == "lawngreen"@ {
        Some(srgb(124, 252, 0))
    } else if s == "lime"@ {
        Some(srgb(0, 255, 0))
    } else if s == "limegreen"@ {
        Some(srgb(50, 205, 50))
    } else if s == "palegreen"@ {
        Some(srgb(152, 251, 152))
    } else if s == "lightgreen"@ {
        Some(srgb(144, 238, 144))
    } else if s == "mediumspringgreen"@ {
        Some(srgb(0, 250, 154))
    } else if s == "springgreen"@ {
        Some(srgb(0, 255, 127))
    } else if s == "mediumseagreen"@ {
        Some(srgb(60, 179, 113))
    } else if s == "seagreen"@ {
        Some(srgb(46, 139, 87))
    } else if s == "forestgreen"@ {
        Some(srgb(34, 139, 34))
    } else if s == "green"@ {
        Some(srgb(0, 128, 0))
    } else if s == "darkgreen"@ {
        Some(srgb(0, 100, 0))
    } else if s == "yellowgreen"@ {
        Some(srgb(154, 205, 50))
    } else if s == "olivedrab"@ {
        Some(srgb(107, 142, 35))
    } else if s == "olive"@ {
        Some(srgb(128, 128, 0))
    } else if s == "darkolivegreen"@ {
        Some(srgb(85, 107, 47))
    } else if s == "mediumaquamarine"@ {
        Some(srgb(102, 205, 170))
    } else if s == "darkseagreen"@ {
        Some(srgb(143, 188, 139))
    } else if s == "lightseagreen"@ {
        Some(srgb(32, 178, 170))
    } else if s == "darkcyan"@ {
        Some(srgb(0, 139, 139))
    } else if s == "teal"@ {
        Some(srgb(0, 128, 128))
    } else {
        None
    }
}

/// The blue and cyan rows of the named-color table.
pub open spec fn spec_named_blues(s: Seq<char>) -> Option<Color> {
    if s == "aqua"@ {
        Some(srgb(0, 255, 255))
    } else if s == "cyan"@ {
        Some(srgb(0, 255, 255))
    } else if s == "lightcyan"@ {
        Some(srgb(224, 255, 255))
    } else if s == "paleturquoise"@ {
        Some(srgb(175, 238, 238))
    } else if s == "aquamarine"@ {
        Some(srgb(127, 255, 212))
    } else if s == "turquoise"@ {
        Some(srgb(64, 224, 208))
    } else if s == "mediumturquoise"@ {
        Some(srgb(72, 209, 204))
    } else if s == "darkturquoise"@ {
        Some(srgb(0, 206, 209))
    } else if s == "cadetblue"@ {
        Some(srgb(95, 158, 160))
    } else if s == "steelblue"@ {
        Some(srgb(70, 130, 180))
    } else if s == "lightsteelblue"@ {
        Some(srgb(176, 196, 222))
    } else if s == "powderblue"@ {
        Some(srgb(176, 224, 230))
    } else if s == "lightblue"@ {
        Some(srgb(173, 216, 230))
    } else if s == "skyblue"@ {
        Some(srgb(135, 206, 235))
    } else if s == "lightskyblue"@ {
        Some(srgb(135, 206, 250))
    } else if s == "deepskyblue"@ {
        Some(srgb(0, 191, 255))
    } else if s == "dodgerblue"@ {
        Some(srgb(30, 144, 255))
    } else if s == "cornflowerblue"@ {
        Some(srgb(100, 149, 237))
    } else if s == "royalblue"@ {
        Some(srgb(65, 105, 225))
    } else if s == "blue"@ {
        Some(srgb(0, 0, 255))
    } else if s == "mediumblue"@ {
        Some(srgb(0, 0, 205))
    } else if s == "darkblue"@ {
        Some(srgb(0, 0, 139))
    } else if s == "navy"@ {
        Some(srgb(0, 0, 128))
    } else if s == "midnightblue"@ {
        Some(srgb(25, 25, 112))
    } else {
        None
    }
}

/// The brown rows of the named-color table.
pub open spec fn spec_named_browns(s: Seq<char>) -> Option<Color> {
    if s == "cornsilk"@ {
        Some(srgb(255, 248, 220))
    } else if s == "blanchedalmond"@ {
        Some(srgb(255, 235, 205))
    } else if s == "bisque"@ {
        Some(srgb(255, 228, 196))
    } else if s == "navajowhite"@ {
        Some(srgb(255, 222, 173))
    } else if s == "wheat"@ {
        Some(srgb(245, 222, 179))
    } else if s == "burlywood"@ {
        Some(srgb(222, 184, 135))
    } else if s == "tan"@ {
        Some(srgb(210, 180, 140))
    } else if s == "rosybrown"@ {
        Some(srgb(188, 143, 143))
    } else if s == "sandybrown"@ {
        Some(srgb(244, 164, 96))
    } else if s == "goldenrod"@ {
        Some(srgb(218, 165, 32))
    } else if s == "darkgoldenrod"@ {
        Some(srgb(184, 134, 11))
    } else if s == "peru"@ {
        Some(srgb(205, 133, 63))
    } else if s == "chocolate"@ {
        Some(srgb(210, 105, 30))
    } else if s == "saddlebrown"@ {
        Some(srgb(139, 69, 19))
    } else if s == "sienna"@ {
        Some(srgb(160, 82, 45))
    } else if s == "brown"@ {
        Some(srgb(165, 42, 42))
    } else if s == "maroon"@ {
        Some(srgb(128, 0, 0))
    } else {
        None
    }
}

/// The white and gray rows of the named-color table.
pub open spec fn spec_named_whites_grays(s: Seq<char>) -> Option<Color> {
    if s == "white"@ {
        Some(srgb(255, 255, 255))
    } else if s == "snow"@ {
        Some(srgb(255, 250, 250))
    } else if s == "honeydew"@ {
        Some(srgb(240, 255, 240))
    } else if s == "mintcream"@ {
        Some(srgb(245, 255, 250))
    } else if s == "azure"@ {
        Some(srgb(240, 255, 255))
    } else if s == "aliceblue"@ {
        Some(srgb(240, 248, 255))
    } else if s == "ghostwhite"@ {
        Some(srgb(248, 248, 255))
    } else if s == "whitesmoke"@ {
        Some(srgb(245, 245, 245))
    } else if s == "seashell"@ {
        Some(srgb(255, 245, 238))
    } else if s == "beige"@ {
        Some(srgb(245, 245, 220))
    } else if s == "oldlace"@ {
        Some(srgb(253, 245, 230))
    } else if s == "floralwhite"@ {
        Some(srgb(255, 250, 240))
    } else if s == "ivory"@ {
        Some(srgb(255, 255, 240))
    } else if s == "antiquewhite"@ {
        Some(srgb(250, 235, 215))
    } else if s == "linen"@ {
        Some(srgb(250, 240, 230))
    } else if s == "lavenderblush"@ {
        Some(srgb(255, 240, 245))
    } else if s == "mistyrose"@ {
        Some(srgb(255, 228, 225))
    } else if s == "gainsboro"@ {
        Some(srgb(220, 220, 220))
    } else if s == "lightgray"@ {
        Some(srgb(211, 211, 211))
    } else if s == "silver"@ {
        Some(srgb(192, 192, 192))
    } else if s == "darkgray"@ {
        Some(srgb(169, 169, 169))
    } else if s == "gray"@ {
        Some(srgb(128, 128, 128))
    } else if s == "dimgray"@ {
        Some(srgb(105, 105, 105))
    } else if s == "lightslategray"@ {
        Some(srgb(119, 136, 153))
    } else if s == "slategray"@ {
        Some(srgb(112, 128, 144))
    } else if s == "darkslategray"@ {
        Some(srgb(47, 79, 79))
    } else if s == "black"@ {
        Some(srgb(0, 0, 0))
    } else {
        None
    }
}

/// The matching executable rows, holding to `spec_named_reds`.
fn named_reds(v: &Vec<char>) -> (r: Option<Color>)
    ensures
        r == spec_named_reds(v@),
{
    if chars_eq(v, "indianred") {
        return Some(Color::rgb(205, 92, 92));
    }
    if chars_eq(v, "lightcoral") {
        return Some(Color::rgb(240, 128, 128));
    }
    if chars_eq(v, "salmon") {
        return Some(Color::rgb(250, 128, 114));
    }
    if chars_eq(v, "darksalmon") {
        return Some(Color::rgb(233, 150, 122));
    }
    if chars_eq(v, "lightsalmon") {
        return Some(Color::rgb(255, 160, 122));
    }
    if chars_eq(v, "crimson") {
        return Some(Color::rgb(220, 20, 60));
    }
    if chars_eq(v, "red") {
        return Some(Color::rgb(255, 0, 0));
    }
    if chars_eq(v, "firebrick") {
        return Some(Color::rgb(178, 34, 34));
    }
    if chars_eq(v, "darkred") {
        return Some(Color::rgb(139, 0, 0));
    }
    if chars_eq(v, "pink") {
        return Some(Color::rgb(255, 192, 203));
    }
    if chars_eq(v, "lightpink") {
        return Some(Color::rgb(255, 182, 193));
    }
    if chars_eq(v, "hotpink") {
        return Some(Color::rgb(255, 105, 180));
    }
    if chars_eq(v, "deeppink") {
        return Some(Color::rgb(255, 20, 147));
    }
    if chars_eq(v, "mediumvioletred") {
        return Some(Color::rgb(199, 21, 133));
    }
    if chars_eq(v, "palevioletred") {
        return Some(Color::rgb(219, 112, 147));
    }
    if chars_eq(v, "coral") {
        return Some(Color::rgb(255, 127, 80));
    }
    if chars_eq(v, "tomato") {
        return Some(Color::rgb(255, 99, 71));
    }
    if chars_eq(v, "orangered") {
        return Some(Color::rgb(255, 69, 0));
    }
    if chars_eq(v, "darkorange") {
        return Some(Color::rgb(255, 140, 0));
    }
    if chars_eq(v, "orange") {
        return Some(Color::rgb(255, 165, 0));
    }
    None
}

/// The matching executable rows, holding to `spec_named_yellows`.
fn named_yellows(v: &Vec<char>) -> (r: Option<Color>)
    ensures
        r == spec_named_yellows(v@),
{
    if chars_eq(v, "gold") {
        return Some(Color::rgb(255, 215, 0));
    }
    if chars_eq(v, "yellow") {
        return Some(Color::rgb(255, 255, 0));
    }
    if chars_eq(v, "lightyellow") {
        return Some(Color::rgb(255, 255, 224));
    }
    if chars_eq(v, "lemonchiffon") {
        return Some(Color::rgb(255, 250, 205));
    }
    if chars_eq(v, "lightgoldenrodyellow") {
        return Some(Color::rgb(250, 250, 210));
    }
    if chars_eq(v, "papayawhip") {
        return Some(Color::rgb(255, 239, 213));
    }
    if chars_eq(v, "moccasin") {
        return Some(Color::rgb(255, 228, 181));
    }
    if chars_eq(v, "peachpuff") {
        return Some(Color::rgb(255, 218, 185));
    }
    if chars_eq(v, "palegoldenrod") {
        return Some(Color::rgb(238, 232, 170));
    }
    if chars_eq(v, "khaki") {
        return Some(Color::rgb(240, 230, 140));
    }
    if chars_eq(v, "darkkhaki") {
        return Some(Color::rgb(189, 183, 107));
    }
    None
}

/// The matching executable rows, holding to `spec_named_purples`.
fn named_purples(v: &Vec<char>) -> (r: Option<Color>)
    ensures
        r == spec_named_purples(v@),
{
    if chars_eq(v, "lavender") {
        return Some(Color::rgb(230, 230, 250));
    }
    if chars_eq(v, "thistle") {
        return Some(Color::rgb(216, 191, 216));
    }
    if chars_eq(v, "plum") {
        return Some(Color::rgb(221, 160, 221));
    }
    if chars_eq(v, "violet") {
        return Some(Color::rgb(238, 130, 238));
    }
    if chars_eq(v, "orchid") {
        return Some(Color::rgb(218, 112, 214));
    }
    if chars_eq(v, "fuchsia") {
        return Some(Color::rgb(255, 0, 255));
    }
    if chars_eq(v, "magenta") {
        return Some(Color::rgb(255, 0, 255));
    }
    if chars_eq(v, "mediumorchid") {
        return Some(Color::rgb(186, 85, 211));
    }
    if chars_eq(v, "mediumpurple") {
        return Some(Color::rgb(147, 112, 219));
    }
    if chars_eq(v, "rebeccapurple") {
        return Some(Color::rgb(102, 51, 153));
    }
    if chars_eq(v, "blueviolet") {
        return Some(Color::rgb(138, 43, 226));
    }
    if chars_eq(v, "darkviolet") {
        return Some(Color::rgb(148, 0, 211));
    }
    if chars_eq(v, "darkorchid") {
        return Some(Color::rgb(153, 50, 204));
    }
    if chars_eq(v, "darkmagenta") {
        return Some(Color::rgb(139, 0, 139));
    }
    if chars_eq(v, "purple") {
        return Some(Color::rgb(128, 0, 128));
    }
    if chars_eq(v, "indigo") {
        return Some(Color::rgb(75, 0, 130));
    }
    if chars_eq(v, "slateblue") {
        return Some(Color::rgb(106, 90, 205));
    }
    if chars_eq(v, "darkslateblue") {
        return Some(Color::rgb(72, 61, 139));
    }
    if chars_eq(v, "mediumslateblue") {
        return Some(Color::rgb(123, 104, 238));
    }
    None
}

/// The matching executable rows, holding to `spec_named_greens`.
fn named_greens(v: &Vec<char>) -> (r: Option<Color>)
    ensures
        r == spec_named_greens(v@),
{
    if chars_eq(v, "greenyellow") {
        return Some(Color::rgb(173, 255, 47));
    }
    if chars_eq(v, "chartreuse") {
        return Some(Color::rgb(127, 255, 0));
    }
    if chars_eq(v, "lawngreen") {
        return Some(Color::rgb(124, 252, 0));
    }
    if chars_eq(v, "lime") {
        return Some(Color::rgb(0, 255, 0));
    }
    if chars_eq(v, "limegreen") {
        return Some(Color::rgb(50, 205, 50));
    }
    if chars_eq(v, "palegreen") {
        return Some(Color::rgb(152, 251, 152));
    }
    if chars_eq(v, "lightgreen") {
        return Some(Color::rgb(144, 238, 144));
    }
    if chars_eq(v, "mediumspringgreen") {
        return Some(Color::rgb(0, 250, 154));
    }
    if chars_eq(v, "springgreen") {
        return Some(Color::rgb(0, 255, 127));
    }
    if chars_eq(v, "mediumseagreen") {
        return Some(Color::rgb(60, 179, 113));
    }
    if chars_eq(v, "seagreen") {
        return Some(Color::rgb(46, 139, 87));
    }
    if chars_eq(v, "forestgreen") {
        return Some(Color::rgb(34, 139, 34));
    }
    if chars_eq(v, "green") {
        return Some(Color::rgb(0, 128, 0));
    }
    if chars_eq(v, "darkgreen") {
        return Some(Color::rgb(0, 100, 0));
    }
    if chars_eq(v, "yellowgreen") {
        return Some(Color::rgb(154, 205, 50));
    }
    if chars_eq(v, "olivedrab") {
        return Some(Color::rgb(107, 142, 35));
    }
    if chars_eq(v, "olive") {
        return Some(Color::rgb(128, 128, 0));
    }
    if chars_eq(v, "darkolivegreen") {
        return Some(Color::rgb(85, 107, 47));
    }
    if chars_eq(v, "mediumaquamarine") {
        return Some(Color::rgb(102, 205, 170));
    }
    if chars_eq(v, "darkseagreen") {
        return Some(Color::rgb(143, 188, 139));
    }
    if chars_eq(v, "lightseagreen") {
        return Some(Color::rgb(32, 178, 170));
    }
    if chars_eq(v, "darkcyan") {
        return Some(Color::rgb(0, 139, 139));
    }
    if chars_eq(v, "teal") {
        return Some(Color::rgb(0, 128, 128));
    }
    None
}

/// The matching executable rows, holding to `spec_named_blues`.
fn named_blues(v: &Vec<char>) -> (r: Option<Color>)
    ensures
        r == spec_named_blues(v@),
{
    if chars_eq(v, "aqua") {
        return Some(Color::rgb(0, 255, 255));
    }
    if chars_eq(v, "cyan") {
        return Some(Color::rgb(0, 255, 255));
    }
    if chars_eq(v, "lightcyan") {
        return Some(Color::rgb(224, 255, 255));
    }
    if chars_eq(v, "paleturquoise") {
        return Some(Color::rgb(175, 238, 238));
    }
    if chars_eq(v, "aquamarine") {
        return Some(Color::rgb(127, 255, 212));
    }
    if chars_eq(v, "turquoise") {
        return Some(Color::rgb(64, 224, 208));
    }
    if chars_eq(v, "mediumturquoise") {
        return Some(Color::rgb(72, 209, 204));
    }
    if chars_eq(v, "darkturquoise") {
        return Some(Color::rgb(0, 206, 209));
    }
    if chars_eq(v, "cadetblue") {
        return Some(Color::rgb(95, 158, 160));
    }
    if chars_eq(v, "steelblue") {
        return Some(Color::rgb(70, 130, 180));
    }
    if chars_eq(v, "lightsteelblue") {
        return Some(Color::rgb(176, 196, 222));
    }
    if chars_eq(v, "powderblue") {
        return Some(Color::rgb(176, 224, 230));
    }
    if chars_eq(v, "lightblue") {
        return Some(Color::rgb(173, 216, 230));
    }
    if chars_eq(v, "skyblue") {
        return Some(Color::rgb(135, 206, 235));
    }
    if chars_eq(v, "lightskyblue") {
        return Some(Color::rgb(135, 206, 250));
    }
    if chars_eq(v, "deepskyblue") {
        return Some(Color::rgb(0, 191, 255));
    }
    if chars_eq(v, "dodgerblue") {
        return Some(Color::rgb(30, 144, 255));
    }
    if chars_eq(v, "cornflowerblue") {
        return Some(Color::rgb(100, 149, 237));
    }
    if chars_eq(v, "royalblue") {
        return Some(Color::rgb(65, 105, 225));
    }
    if chars_eq(v, "blue") {
        return Some(Color::rgb(0, 0, 255));
    }
    if chars_eq(v, "mediumblue") {
        return Some(Color::rgb(0, 0, 205));
    }
    if chars_eq(v, "darkblue") {
        return Some(Color::rgb(0, 0, 139));
    }
    if chars_eq(v, "navy") {
        return Some(Color::rgb(0, 0, 128));
    }
    if chars_eq(v, "midnightblue") {
        return Some(Color::rgb(25, 25, 112));
    }
    None
}

/// The matching executable rows, holding to `spec_named_browns`.
fn named_browns(v: &Vec<char>) -> (r: Option<Color>)
    ensures
        r == spec_named_browns(v@),
{
    if chars_eq(v, "cornsilk") {
        return Some(Color::rgb(255, 248, 220));
    }
    if chars_eq(v, "blanchedalmond") {
        return Some(Color::rgb(255, 235, 205));
    }
    if chars_eq(v, "bisque") {
        return Some(Color::rgb(255, 228, 196));
    }
    if chars_eq(v, "navajowhite") {
        return Some(Color::rgb(255, 222, 173));
    }
    if chars_eq(v, "wheat") {
        return Some(Color::rgb(245, 222, 179));
    }
    if chars_eq(v, "burlywood") {
        return Some(Color::rgb(222, 184, 135));
    }
    if chars_eq(v, "tan") {
        return Some(Color::rgb(210, 180, 140));
    }
    if chars_eq(v, "rosybrown") {
        return Some(Color::rgb(188, 143, 143));
    }
    if chars_eq(v, "sandybrown") {
        return Some(Color::rgb(244, 164, 96));
    }
    if chars_eq(v, "goldenrod") {
        return Some(Color::rgb(218, 165, 32));
    }
    if chars_eq(v, "darkgoldenrod") {
        return Some(Color::rgb(184, 134, 11));
    }
    if chars_eq(v, "peru") {
        return Some(Color::rgb(205, 133, 63));
    }
    if chars_eq(v, "chocolate") {
        return Some(Color::rgb(210, 105, 30));
    }
    if chars_eq(v, "saddlebrown") {
        return Some(Color::rgb(139, 69, 19));
    }
    if chars_eq(v, "sienna") {
        return Some(Color::rgb(160, 82, 45));
    }
    if chars_eq(v, "brown") {
        return Some(Color::rgb(165, 42, 42));
    }
    if chars_eq(v, "maroon") {
        return Some(Color::rgb(128, 0, 0));
    }
    None
}

/// The matching executable rows, holding to `spec_named_whites_grays`.
fn named_whites_grays(v: &Vec<char>) -> (r: Option<Color>)
    ensures
        r == spec_named_whites_grays(v@),
{
    if chars_eq(v, "white") {
        return Some(Color::rgb(255, 255, 255));
    }
    if chars_eq(v, "snow") {
        return Some(Color::rgb(255, 250, 250));
    }
    if chars_eq(v, "honeydew") {
        return Some(Color::rgb(240, 255, 240));
    }
    if chars_eq(v, "mintcream") {
        return Some(Color::rgb(245, 255, 250));
    }
    if chars_eq(v, "azure") {
        return Some(Color::rgb(240, 255, 255));
    }
    if chars_eq(v, "aliceblue") {
        return Some(Color::rgb(240, 248, 255));
    }
    if chars_eq(v, "ghostwhite") {
        return Some(Color::rgb(248, 248, 255));
    }
    if chars_eq(v, "whitesmoke") {
        return Some(Color::rgb(245, 245, 245));
    }
    if chars_eq(v, "seashell") {
        return Some(Color::rgb(255, 245, 238));
    }
    if chars_eq(v, "beige") {
        return Some(Color::rgb(245, 245, 220));
    }
    if chars_eq(v, "oldlace") {
        return Some(Color::rgb(253, 245, 230));
    }
    if chars_eq(v, "floralwhite") {
        return Some(Color::rgb(255, 250, 240));
    }
    if chars_eq(v, "ivory") {
        return Some(Color::rgb(255, 255, 240));
    }
    if chars_eq(v, "antiquewhite") {
        return Some(Color::rgb(250, 235, 215));
    }
    if chars_eq(v, "linen") {
        return Some(Color::rgb(250, 240, 230));
    }
    if chars_eq(v, "lavenderblush") {
        return Some(Color::rgb(255, 240, 245));
    }
    if chars_eq(v, "mistyrose") {
        return Some(Color::rgb(255, 228, 225));
    }
    if chars_eq(v, "gainsboro") {
        return Some(Color::rgb(220, 220, 220));
    }
    if chars_eq(v, "lightgray") {
        return Some(Color::rgb(211, 211, 211));
    }
    if chars_eq(v, "silver") {
        return Some(Color::rgb(192, 192, 192));
    }
    if chars_eq(v, "darkgray") {
        return Some(Color::rgb(169, 169, 169));
    }
    if chars_eq(v, "gray") {
        return Some(Color::rgb(128, 128, 128));
    }
    if chars_eq(v, "dimgray") {
        return Some(Color::rgb(105, 105, 105));
    }
    if chars_eq(v, "lightslategray") {
        return Some(Color::rgb(119, 136, 153));
    }
    if chars_eq(v, "slategray") {
        return Some(Color::rgb(112, 128, 144));
    }
    if chars_eq(v, "darkslategray") {
        return Some(Color::rgb(47, 79, 79));
    }
    if chars_eq(v, "black") {
        return Some(Color::rgb(0, 0, 0));
    }
    None
}

/// The named lookup over the whole fixed table, matching `spec_named`.
fn named_lookup(v: &Vec<char>) -> (r: Option<Color>)
    ensures
        r == spec_named(v@),
{
    if let Some(c) = named_reds(v) {
        return Some(c);
    }
    if let Some(c) = named_yellows(v) {
        return Some(c);
    }
    if let Some(c) = named_purples(v) {
        return Some(c);
    }
    if let Some(c) = named_greens(v) {
        return Some(c);
    }
    if let Some(c) = named_blues(v) {
        return Some(c);
    }
    if let Some(c) = named_browns(v) {
        return Some(c);
    }
    named_whites_grays(v)
}

/// What a color expression resolves to: the named lookup on the lowercased
/// string first, then the `hsl`, hex and `rgb` forms in that order. A
/// syntactically valid `hsl` expression never yields a value: it fails with
/// `InvalidRange` when saturation or lightness exceeds 100 and with
/// `UnsupportedColorForm` otherwise.
pub open spec fn spec_resolve(s: Seq<char>) -> Result<Color, ColorResolutionError> {
    match spec_named(lower_seq(s)) {
        Some(c) => Ok(c),
        None => match spec_hsl(s) {
            Some(t) => if t.1 <= 100 && t.2 <= 100 {
                Err(ColorResolutionError::UnsupportedColorForm)
            } else {
                Err(ColorResolutionError::InvalidRange)
            },
            None => match spec_hex(s) {
                Some(c) => Ok(c),
                None => match spec_rgb(s) {
                    Some(t) => Ok(srgb(t.0 as u8, t.1 as u8, t.2 as u8)),
                    None => Err(ColorResolutionError::UnrecognizedColorExpression),
                },
            },
        },
    }
}

/// Color resolution is pure and idempotent: the outcome is a function of the
/// expression's characters alone, so resolving the same string twice yields
/// bit-identical values.
pub proof fn lemma_resolve_pure(s1: Seq<char>, s2: Seq<char>)
    requires
        s1 == s2,
    ensures
        spec_resolve(s1) == spec_resolve(s2),
{
}

impl Color {
    /// An opaque color from three channels, alpha fixed at 255.
    pub fn rgb(r: u8, g: u8, b: u8) -> (c: Color)
        ensures
            c == srgb(r, g, b),
    {
        Color { r, g, b, a: 255 }
    }

    /// An opaque gray with all three channels at the same level.
    pub fn mono(level: u8) -> (c: Color)
        ensures
            c == srgb(level, level, level),
    {
        Color { r: level, g: level, b: level, a: 255 }
    }

    /// Resolve a color expression to a color value, or say why it cannot be.
    pub fn parse(input: &str) -> (r: Result<Color, ColorResolutionError>)
        ensures
            r == spec_resolve(input@),
    {
        let chars = to_chars(input);
        let low = lower_chars(&chars);
        if let Some(c) = named_lookup(&low) {
            return Ok(c);
        }
        if chars.len() >= 3 && chars[0] == 'h' && chars[1] == 's' && chars[2] == 'l' {
            if let Some(t) = parse_func_args(&chars, 3) {
                return if t.1 <= 100 && t.2 <= 100 {
                    Err(ColorResolutionError::UnsupportedColorForm)
                } else {
                    Err(ColorResolutionError::InvalidRange)
                };
            }
        }
        if let Some(c) = parse_hex(&chars) {
            return Ok(c);
        }
        if chars.len() >= 3 && chars[0] == 'r' && chars[1] == 'g' && chars[2] == 'b' {
            if let Some(t) = parse_func_args(&chars, 3) {
                return Ok(Color::rgb(t.0, t.1, t.2));
            }
        }
        Err(ColorResolutionError::UnrecognizedColorExpression)
    }
}

} // verus!

