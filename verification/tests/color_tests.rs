use tiler::Color;
use tiler::ColorResolutionError;

fn rgba(r: u8, g: u8, b: u8, a: u8) -> Color {
    Color { r, g, b, a }
}

#[test]
fn hex_form_resolves_exactly() {
    assert_eq!(Color::parse("#ff8000"), Ok(rgba(255, 128, 0, 255)));
}

#[test]
fn hex_form_accepts_uppercase_digits() {
    assert_eq!(Color::parse("#FF8000"), Ok(rgba(255, 128, 0, 255)));
    assert_eq!(Color::parse("#00000A"), Ok(rgba(0, 0, 10, 255)));
}

#[test]
fn hex_form_requires_exactly_six_digits() {
    assert_eq!(
        Color::parse("#ff800"),
        Err(ColorResolutionError::UnrecognizedColorExpression)
    );
    assert_eq!(
        Color::parse("#ff80000"),
        Err(ColorResolutionError::UnrecognizedColorExpression)
    );
    assert_eq!(
        Color::parse("#ff80zz"),
        Err(ColorResolutionError::UnrecognizedColorExpression)
    );
}

#[test]
fn rgb_form_ignores_inner_spacing() {
    let expected = Ok(rgba(10, 20, 30, 255));
    assert_eq!(Color::parse("rgb(10, 20, 30)"), expected);
    assert_eq!(Color::parse("rgb(10,20,30)"), expected);
    assert_eq!(Color::parse("rgb( 10 , 20 , 30 )"), expected);
}

#[test]
fn rgb_form_bounds_components() {
    assert_eq!(Color::parse("rgb(255,255,255)"), Ok(rgba(255, 255, 255, 255)));
    assert_eq!(Color::parse("rgb(0,0,0)"), Ok(rgba(0, 0, 0, 255)));
    assert_eq!(
        Color::parse("rgb(256,0,0)"),
        Err(ColorResolutionError::UnrecognizedColorExpression)
    );
    assert_eq!(
        Color::parse("rgb(1000,2,3)"),
        Err(ColorResolutionError::UnrecognizedColorExpression)
    );
}

#[test]
fn rgb_form_rejects_malformed_input() {
    assert_eq!(
        Color::parse("rgb(1,2)"),
        Err(ColorResolutionError::UnrecognizedColorExpression)
    );
    assert_eq!(
        Color::parse("rgb(1,2,3"),
        Err(ColorResolutionError::UnrecognizedColorExpression)
    );
    assert_eq!(
        Color::parse("rgb(1,2,3)x"),
        Err(ColorResolutionError::UnrecognizedColorExpression)
    );
    assert_eq!(
        Color::parse("rgb(1,,3)"),
        Err(ColorResolutionError::UnrecognizedColorExpression)
    );
}

#[test]
fn named_lookup_is_case_insensitive() {
    let red = Ok(rgba(255, 0, 0, 255));
    assert_eq!(Color::parse("red"), red);
    assert_eq!(Color::parse("RED"), red);
    assert_eq!(Color::parse("Red"), red);
}

#[test]
fn named_lookup_covers_the_fixed_table() {
    assert_eq!(Color::parse("cadetblue"), Ok(rgba(95, 158, 160, 255)));
    assert_eq!(Color::parse("white"), Ok(rgba(255, 255, 255, 255)));
    assert_eq!(Color::parse("black"), Ok(rgba(0, 0, 0, 255)));
    assert_eq!(Color::parse("gray"), Ok(rgba(128, 128, 128, 255)));
    assert_eq!(Color::parse("green"), Ok(rgba(0, 128, 0, 255)));
    assert_eq!(Color::parse("lightgreen"), Ok(rgba(144, 238, 144, 255)));
    assert_eq!(Color::parse("rebeccapurple"), Ok(rgba(102, 51, 153, 255)));
    assert_eq!(Color::parse("moccasin"), Ok(rgba(255, 228, 181, 255)));
}

#[test]
fn hsl_form_always_fails_to_resolve() {
    assert_eq!(
        Color::parse("hsl(120,50,50)"),
        Err(ColorResolutionError::UnsupportedColorForm)
    );
    assert_eq!(
        Color::parse("hsl( 0 , 100 , 100 )"),
        Err(ColorResolutionError::UnsupportedColorForm)
    );
}

#[test]
fn hsl_form_rejects_out_of_range_components() {
    assert_eq!(
        Color::parse("hsl(0,150,50)"),
        Err(ColorResolutionError::InvalidRange)
    );
    assert_eq!(
        Color::parse("hsl(0,50,101)"),
        Err(ColorResolutionError::InvalidRange)
    );
}

#[test]
fn hsl_form_with_broken_syntax_is_unrecognized() {
    assert_eq!(
        Color::parse("hsl(0,50)"),
        Err(ColorResolutionError::UnrecognizedColorExpression)
    );
    assert_eq!(
        Color::parse("hsl(400,50,50)"),
        Err(ColorResolutionError::UnrecognizedColorExpression)
    );
}

#[test]
fn unknown_expressions_are_unrecognized() {
    assert_eq!(
        Color::parse(""),
        Err(ColorResolutionError::UnrecognizedColorExpression)
    );
    assert_eq!(
        Color::parse("notacolor"),
        Err(ColorResolutionError::UnrecognizedColorExpression)
    );
    assert_eq!(
        Color::parse(" red "),
        Err(ColorResolutionError::UnrecognizedColorExpression)
    );
}

#[test]
fn resolution_is_pure_and_idempotent() {
    for expr in ["#ff8000", "rgb(10, 20, 30)", "red", "hsl(120,50,50)", "nonsense"] {
        let first = Color::parse(expr);
        let second = Color::parse(expr);
        assert_eq!(first, second);
    }
}

#[test]
fn constructors_fix_alpha_at_opaque() {
    assert_eq!(Color::rgb(1, 2, 3), rgba(1, 2, 3, 255));
    assert_eq!(Color::mono(9), rgba(9, 9, 9, 255));
}
