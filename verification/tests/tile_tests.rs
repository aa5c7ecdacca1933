use tiler::GrammarError;
use tiler::TileAttr;
use tiler::parse_attr;
use tiler::parse_tile;

fn attrs(list: &[&str]) -> Vec<String> {
    list.iter().map(|s| s.to_string()).collect()
}

#[test]
fn attr_default_marker_parses() {
    assert!(matches!(parse_attr("default"), Ok(TileAttr::Default)));
    assert!(matches!(parse_attr("  default  "), Ok(TileAttr::Default)));
}

#[test]
fn attr_char_parses_one_character() {
    assert!(matches!(parse_attr("char = #"), Ok(TileAttr::Char('#'))));
    assert!(matches!(parse_attr("char=."), Ok(TileAttr::Char('.'))));
    assert!(matches!(parse_attr("char = ·"), Ok(TileAttr::Char('·'))));
}

#[test]
fn attr_char_rejects_bad_values() {
    assert_eq!(
        parse_attr("char = ab").unwrap_err(),
        GrammarError::UnknownAttribute
    );
    assert_eq!(
        parse_attr("char = ").unwrap_err(),
        GrammarError::UnknownAttribute
    );
}

#[test]
fn attr_colors_keep_their_expression() {
    match parse_attr("fg_color = rgb(1, 2, 3)") {
        Ok(TileAttr::FgColor(v)) => assert_eq!(v, "rgb(1, 2, 3)"),
        other => panic!("unexpected parse: {:?}", other),
    }
    match parse_attr("bg_color=black") {
        Ok(TileAttr::BgColor(v)) => assert_eq!(v, "black"),
        other => panic!("unexpected parse: {:?}", other),
    }
}

#[test]
fn attr_unknown_keywords_are_rejected() {
    assert_eq!(
        parse_attr("glow = yes").unwrap_err(),
        GrammarError::UnknownAttribute
    );
    assert_eq!(parse_attr("").unwrap_err(), GrammarError::UnknownAttribute);
    assert_eq!(
        parse_attr("defaults").unwrap_err(),
        GrammarError::UnknownAttribute
    );
    assert_eq!(
        parse_attr("charms = x").unwrap_err(),
        GrammarError::UnknownAttribute
    );
}

#[test]
fn tile_requires_exactly_one_char() {
    let err = parse_tile("Grass", &attrs(&["default"])).unwrap_err();
    assert_eq!(err, GrammarError::MissingChar);
    let err = parse_tile("Grass", &attrs(&["char = .", "char = #"])).unwrap_err();
    assert_eq!(err, GrammarError::DuplicateChar);
}

#[test]
fn tile_rejects_two_default_markers() {
    let err = parse_tile("Grass", &attrs(&["char = .", "default", "default"])).unwrap_err();
    assert_eq!(err, GrammarError::DuplicateDefault);
}

#[test]
fn tile_colors_default_to_white_on_black() {
    let def = parse_tile("Grass", &attrs(&["char = ."])).unwrap();
    assert_eq!(def.name, "Grass");
    assert_eq!(def.character, '.');
    assert!(!def.is_default);
    assert_eq!(def.fg_color_expr, "white");
    assert_eq!(def.bg_color_expr, "black");
}

#[test]
fn tile_keeps_declared_attributes() {
    let def = parse_tile(
        "Wall",
        &attrs(&["char = #", "fg_color = gray", "bg_color = rgb(1,2,3)", "default"]),
    )
    .unwrap();
    assert_eq!(def.character, '#');
    assert!(def.is_default);
    assert_eq!(def.fg_color_expr, "gray");
    assert_eq!(def.bg_color_expr, "rgb(1,2,3)");
}

#[test]
fn tile_attribute_order_is_irrelevant() {
    let a = parse_tile("T", &attrs(&["char = x", "fg_color = red", "default"])).unwrap();
    let b = parse_tile("T", &attrs(&["default", "fg_color = red", "char = x"])).unwrap();
    assert_eq!(a.character, b.character);
    assert_eq!(a.is_default, b.is_default);
    assert_eq!(a.fg_color_expr, b.fg_color_expr);
}

#[test]
fn tile_repeated_color_keeps_the_last() {
    let def = parse_tile(
        "T",
        &attrs(&["char = x", "fg_color = red", "fg_color = blue"]),
    )
    .unwrap();
    assert_eq!(def.fg_color_expr, "blue");
}

#[test]
fn tile_fails_fast_on_first_bad_attribute() {
    let err = parse_tile("T", &attrs(&["mystery", "char = x"])).unwrap_err();
    assert_eq!(err, GrammarError::UnknownAttribute);
}
