use lint_directives::parse::{cfg_attr, cfg_attr_inner, ParseError};
use lint_directives::token::{Position, Span, Token};

fn sp(line: usize, c0: usize, c1: usize) -> Span {
    Span {
        start: Position { line, column: c0 },
        end: Position { line, column: c1 },
    }
}

fn ident(name: &str, line: usize, c0: usize) -> Token {
    Token::Ident(name.to_string(), sp(line, c0, c0 + name.len()))
}

fn feature_clause(flag: &str) -> Vec<Token> {
    vec![
        ident("feature", 1, 10),
        Token::Eq(sp(1, 18, 19)),
        Token::LitStr(flag.to_string(), sp(1, 20, 22 + flag.len())),
    ]
}

#[test]
fn test_feature_literal_mismatch() {
    let tokens = feature_clause("not-clippy");
    let lit_span = sp(1, 20, 32);
    assert_eq!(cfg_attr(&tokens).unwrap_err(), ParseError::FeatureLiteralMismatch(lit_span));
}

#[test]
fn test_correct_literal_no_comma_yields_empty_record() {
    let tokens = feature_clause("cargo-clippy");
    let awd = cfg_attr(&tokens).unwrap();
    assert!(awd.is_empty());
}

#[test]
fn test_missing_feature_keyword_is_shape_mismatch() {
    let mut tokens = feature_clause("cargo-clippy");
    tokens[0] = ident("future", 1, 10);
    assert_eq!(cfg_attr(&tokens).unwrap_err(), ParseError::ShapeMismatch);
}

#[test]
fn test_missing_eq_is_shape_mismatch() {
    let mut tokens = feature_clause("cargo-clippy");
    tokens[1] = Token::Comma(sp(1, 18, 19));
    assert_eq!(cfg_attr(&tokens).unwrap_err(), ParseError::ShapeMismatch);
}

#[test]
fn test_missing_literal_is_shape_mismatch() {
    let tokens = vec![
        ident("feature", 1, 10),
        Token::Eq(sp(1, 18, 19)),
        ident("cargo_clippy", 1, 20),
    ];
    assert_eq!(cfg_attr(&tokens).unwrap_err(), ParseError::ShapeMismatch);
}

#[test]
fn test_allow_and_warn_directives_collected() {
    // cfg_attr(feature = "cargo-clippy", allow(a), warn(b))
    let mut tokens = feature_clause("cargo-clippy");
    tokens.push(Token::Comma(sp(1, 34, 35)));
    tokens.push(ident("allow", 1, 36));
    tokens.push(Token::Group(vec![ident("a", 1, 42)], sp(1, 41, 44)));
    tokens.push(Token::Comma(sp(1, 44, 45)));
    tokens.push(ident("warn", 1, 46));
    tokens.push(Token::Group(vec![ident("b", 1, 51)], sp(1, 50, 53)));
    let awd = cfg_attr(&tokens).unwrap();
    assert_eq!(awd.allow.len(), 1);
    assert_eq!(awd.allow[0].name, "a");
    assert_eq!(awd.allow[0].span, sp(1, 42, 43));
    assert_eq!(awd.warn.len(), 1);
    assert_eq!(awd.warn[0].name, "b");
    assert_eq!(awd.warn[0].span, sp(1, 51, 52));
    assert!(awd.deny.is_empty());
}

#[test]
fn test_unrecognized_keyword_stops_but_retains_prior() {
    // cfg_attr(feature = "cargo-clippy", allow(a), warn(b, c), expect(d))
    let mut tokens = feature_clause("cargo-clippy");
    tokens.push(Token::Comma(sp(1, 34, 35)));
    tokens.push(ident("allow", 1, 36));
    tokens.push(Token::Group(vec![ident("a", 1, 42)], sp(1, 41, 44)));
    tokens.push(Token::Comma(sp(1, 44, 45)));
    tokens.push(ident("warn", 1, 46));
    tokens.push(Token::Group(
        vec![ident("b", 1, 51), Token::Comma(sp(1, 52, 53)), ident("c", 1, 54)],
        sp(1, 50, 56),
    ));
    tokens.push(Token::Comma(sp(1, 56, 57)));
    tokens.push(ident("expect", 1, 58));
    tokens.push(Token::Group(vec![ident("d", 1, 65)], sp(1, 64, 67)));
    let awd = cfg_attr(&tokens).unwrap();
    assert_eq!(awd.allow.len(), 1);
    assert_eq!(awd.allow[0].name, "a");
    assert_eq!(awd.warn.len(), 2);
    assert_eq!(awd.warn[0].name, "b");
    assert_eq!(awd.warn[1].name, "c");
    assert!(awd.deny.is_empty());
}

#[test]
fn test_malformed_nested_list_keeps_prior_directives() {
    // cfg_attr(feature = "cargo-clippy", allow(a), warn(::))
    let mut tokens = feature_clause("cargo-clippy");
    tokens.push(Token::Comma(sp(1, 34, 35)));
    tokens.push(ident("allow", 1, 36));
    tokens.push(Token::Group(vec![ident("a", 1, 42)], sp(1, 41, 44)));
    tokens.push(Token::Comma(sp(1, 44, 45)));
    tokens.push(ident("warn", 1, 46));
    tokens.push(Token::Group(vec![Token::PathSep(sp(1, 51, 53))], sp(1, 50, 54)));
    let awd = cfg_attr(&tokens).unwrap();
    assert_eq!(awd.allow.len(), 1);
    assert_eq!(awd.allow[0].name, "a");
    assert!(awd.warn.is_empty());
    assert!(awd.deny.is_empty());
}

#[test]
fn test_keyword_without_list_yields_record_so_far() {
    // cfg_attr(feature = "cargo-clippy", allow allow)
    let mut tokens = feature_clause("cargo-clippy");
    tokens.push(Token::Comma(sp(1, 34, 35)));
    tokens.push(ident("allow", 1, 36));
    tokens.push(ident("allow", 1, 42));
    let awd = cfg_attr(&tokens).unwrap();
    assert!(awd.is_empty());
}

#[test]
fn test_no_comma_between_directives_still_collected() {
    // cfg_attr(feature = "cargo-clippy", allow(a) warn(b))
    let mut tokens = feature_clause("cargo-clippy");
    tokens.push(Token::Comma(sp(1, 34, 35)));
    tokens.push(ident("allow", 1, 36));
    tokens.push(Token::Group(vec![ident("a", 1, 42)], sp(1, 41, 44)));
    tokens.push(ident("warn", 1, 45));
    tokens.push(Token::Group(vec![ident("b", 1, 50)], sp(1, 49, 52)));
    let awd = cfg_attr(&tokens).unwrap();
    assert_eq!(awd.allow.len(), 1);
    assert_eq!(awd.warn.len(), 1);
}

#[test]
fn test_namespaced_item_in_nested_list_skipped() {
    // the namespace is implied by the feature gate: only bare names count
    let inner = vec![
        ident("clippy", 1, 42),
        Token::PathSep(sp(1, 48, 50)),
        ident("a", 1, 50),
        Token::Comma(sp(1, 51, 52)),
        ident("b", 1, 53),
    ];
    let lints = cfg_attr_inner(&inner).unwrap();
    assert_eq!(lints.len(), 1);
    assert_eq!(lints[0].name, "b");
    assert_eq!(lints[0].span, sp(1, 53, 54));
}

#[test]
fn test_trailing_comma_inside_nested_list() {
    let inner = vec![ident("a", 1, 42), Token::Comma(sp(1, 43, 44))];
    let lints = cfg_attr_inner(&inner).unwrap();
    assert_eq!(lints.len(), 1);
    assert_eq!(lints[0].name, "a");
}

#[test]
fn test_deny_directive_collected() {
    let mut tokens = feature_clause("cargo-clippy");
    tokens.push(Token::Comma(sp(1, 34, 35)));
    tokens.push(ident("deny", 1, 36));
    tokens.push(Token::Group(vec![ident("bad", 1, 41)], sp(1, 40, 45)));
    let awd = cfg_attr(&tokens).unwrap();
    assert!(awd.allow.is_empty());
    assert!(awd.warn.is_empty());
    assert_eq!(awd.deny.len(), 1);
    assert_eq!(awd.deny[0].name, "bad");
}
