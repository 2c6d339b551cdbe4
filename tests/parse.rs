use syntax_descriptor::ascii::trim_ascii_whitespace;
use syntax_descriptor::{
    parse_descriptor, Component, ComponentName, CustomIdent, DataType, DefaultImpl, Descriptor,
    Multiplier, ParseError,
};

fn ident(s: &str) -> ComponentName {
    ComponentName::Ident(CustomIdent::from_ident(s).unwrap())
}

fn check_trim(i: &str, o: &str) {
    assert_eq!(trim_ascii_whitespace(i.as_bytes()), o.as_bytes());
}

#[test]
fn trim_ascii_whitespace_test() {
    check_trim("", "");
    check_trim(" ", "");
    check_trim(" a b c ", "a b c");
    check_trim(" \t \t \ta b c \t \t \t \t", "a b c");
}

#[test]
fn trim_form_feed_and_newlines() {
    check_trim("\x0c\r\na\x0c b\n\r", "a\x0c b");
    check_trim("\x0c\x0c", "");
    check_trim("x", "x");
}

#[test]
fn universal() {
    for syntax in &["*", " * ", "* ", "\t*\t"] {
        assert_eq!(parse_descriptor(syntax), Ok(Descriptor::universal()));
    }
}

#[test]
fn universal_has_no_components() {
    assert!(Descriptor::universal().components().is_empty());
    assert!(parse_descriptor(" * ").unwrap().components().is_empty());
}

#[test]
fn simple_length() {
    let d = parse_descriptor("foo <length>#").unwrap();
    let c = d.components();
    assert_eq!(c.len(), 2);
    assert_eq!(c[0].name(), &ident("foo"));
    assert_eq!(c[0].multiplier(), None);
    assert_eq!(c[1].name(), &ComponentName::DataType(DataType::Length));
    assert_eq!(c[1].multiplier(), Some(Multiplier::Comma));
}

#[test]
fn whitespace_only_is_empty_input() {
    for syntax in &["", " ", "\t\n\r ", "\x0c"] {
        assert_eq!(parse_descriptor(syntax), Err(ParseError::EmptyInput));
    }
}

#[test]
fn reserved_keywords_are_invalid_names() {
    for syntax in &[
        "inherit", "INHERIT", "Inherit", "reset", "ReSeT", "revert", "REVERT", "unset", "uNSET",
        "default", "Default",
    ] {
        assert_eq!(parse_descriptor(syntax), Err(ParseError::InvalidName));
    }
    let d = parse_descriptor("foo | initial").unwrap();
    let c = d.components();
    assert_eq!(c.len(), 2);
    assert_eq!(c[0].name(), &ident("foo"));
    assert_eq!(c[1].name(), &ident("initial"));
}

#[test]
fn custom_ident_rejects_keywords_in_any_case() {
    assert!(CustomIdent::from_ident("INHERIT").is_none());
    assert!(CustomIdent::from_ident("unSet").is_none());
    assert!(DefaultImpl::custom_ident_from_ident("Default").is_none());
    assert!(CustomIdent::from_ident("inherits").is_some());
    assert!(CustomIdent::from_ident("initial").is_some());
}

#[test]
fn transform_list_is_pre_multiplied() {
    let d = parse_descriptor("<transform-list>").unwrap();
    let c = d.components();
    assert_eq!(c.len(), 1);
    assert_eq!(c[0].name(), &ComponentName::DataType(DataType::TransformList));
    assert_eq!(c[0].multiplier(), None);
    assert!(c[0].name().is_pre_multiplied());
    let expanded = c[0].unpremultipied();
    assert_eq!(
        expanded.name(),
        &ComponentName::DataType(DataType::TransformFunction)
    );
    assert_eq!(expanded.multiplier(), Some(Multiplier::Space));
}

#[test]
fn transform_list_takes_no_multiplier() {
    assert_eq!(
        parse_descriptor("<transform-list>+"),
        Err(ParseError::InvalidNameStart)
    );
    assert_eq!(
        parse_descriptor("<transform-list>#"),
        Err(ParseError::InvalidNameStart)
    );
}

#[test]
fn other_components_expand_to_themselves() {
    let d = parse_descriptor("<length>+").unwrap();
    let c = &d.components()[0];
    assert!(!c.name().is_pre_multiplied());
    let same = c.unpremultipied();
    assert_eq!(&*same, c);
    assert_eq!(DataType::Length.unpremultiply(), None);
    assert!(DefaultImpl::unpremultiply_data_type(&DataType::TransformList).is_some());
}

#[test]
fn data_type_errors() {
    assert_eq!(
        parse_descriptor("<unknown-type>"),
        Err(ParseError::UnknownDataTypeName)
    );
    assert_eq!(
        parse_descriptor("<length"),
        Err(ParseError::UnclosedDataTypeName)
    );
    assert_eq!(
        parse_descriptor("<Length>"),
        Err(ParseError::UnknownDataTypeName)
    );
}

#[test]
fn pipes() {
    assert_eq!(parse_descriptor("|foo"), Err(ParseError::UnexpectedPipe));
    let d = parse_descriptor("foo|<length>").unwrap();
    let c = d.components();
    assert_eq!(c.len(), 2);
    assert_eq!(c[0].name(), &ident("foo"));
    assert_eq!(c[1].name(), &ComponentName::DataType(DataType::Length));
    assert_eq!(parse_descriptor("foo |"), Err(ParseError::UnexpectedEOF));
}

#[test]
fn components_without_pipe_are_accepted() {
    let d = parse_descriptor("foo bar+").unwrap();
    let c = d.components();
    assert_eq!(c.len(), 2);
    assert_eq!(c[0].name(), &ident("foo"));
    assert_eq!(c[1].name(), &ident("bar"));
    assert_eq!(c[1].multiplier(), Some(Multiplier::Space));
}

#[test]
fn name_errors() {
    assert_eq!(parse_descriptor("1abc"), Err(ParseError::InvalidNameStart));
    assert_eq!(parse_descriptor("-foo"), Err(ParseError::InvalidNameStart));
    assert_eq!(parse_descriptor("foo("), Err(ParseError::InvalidName));
}

#[test]
fn escaped_and_non_ascii_identifiers() {
    let d = parse_descriptor("\\66oo").unwrap();
    assert_eq!(d.components()[0].name(), &ident("foo"));
    let d = parse_descriptor("caf\u{e9} | _x#").unwrap();
    let c = d.components();
    assert_eq!(c[0].name(), &ident("caf\u{e9}"));
    assert_eq!(c[1].name(), &ident("_x"));
    assert_eq!(c[1].multiplier(), Some(Multiplier::Comma));
}

#[test]
fn data_type_names() {
    let all = [
        ("length", DataType::Length),
        ("number", DataType::Number),
        ("percentage", DataType::Percentage),
        ("length-percentage", DataType::LengthPercentage),
        ("color", DataType::Color),
        ("image", DataType::Image),
        ("url", DataType::Url),
        ("integer", DataType::Integer),
        ("angle", DataType::Angle),
        ("time", DataType::Time),
        ("resolution", DataType::Resolution),
        ("transform-function", DataType::TransformFunction),
        ("transform-list", DataType::TransformList),
        ("custom-ident", DataType::CustomIdent),
    ];
    for (name, ty) in all.iter() {
        assert_eq!(DataType::from_str(name), Some(*ty));
        assert_eq!(DataType::from_bytes(name.as_bytes()), Some(*ty));
        assert_eq!(DefaultImpl::data_type_name_from_str(name), Some(*ty));
    }
    assert_eq!(DataType::from_str("len"), None);
    assert_eq!(DataType::from_str("COLOR"), None);
    assert_eq!(DataType::from_str(""), None);
}

#[test]
fn parsing_is_pure() {
    let a = parse_descriptor("foo | <length>+ | <color>#");
    let b = parse_descriptor("foo | <length>+ | <color>#");
    assert_eq!(a, b);
    let d = a.unwrap();
    let c: &[Component] = d.components();
    assert_eq!(c.len(), 3);
    assert_eq!(c[2].name(), &ComponentName::DataType(DataType::Color));
}
