use lint_directives::findings::Findings;
use lint_directives::parse::cfg_attr;
use lint_directives::token::{DirectiveKind, Position, Span, Token};

fn sp(line: usize, c0: usize, c1: usize) -> Span {
    Span {
        start: Position { line, column: c0 },
        end: Position { line, column: c1 },
    }
}

fn ident(name: &str, line: usize, c0: usize) -> Token {
    Token::Ident(name.to_string(), sp(line, c0, c0 + name.len()))
}

#[test]
fn test_attr_visitor() {
    // #![allow(clippy::asdf)]
    //
    // fn main() {
    //     #[cfg_attr(feature = "cargo-clippy", allow(jkl))]
    //     let _;
    //
    //     #[cfg_attr(feature = "cargo-clippy", allow(alice), warn(bob))]
    //     let _;
    // }
    let mut findings = Findings::new();

    let site_one = vec![
        ident("clippy", 1, 9),
        Token::PathSep(sp(1, 15, 17)),
        ident("asdf", 1, 17),
    ];
    findings.merge(&lint_directives::parse::allow(&site_one).unwrap());

    let site_two = vec![
        ident("feature", 4, 15),
        Token::Eq(sp(4, 23, 24)),
        Token::LitStr("cargo-clippy".to_string(), sp(4, 25, 39)),
        Token::Comma(sp(4, 39, 40)),
        ident("allow", 4, 41),
        Token::Group(vec![ident("jkl", 4, 47)], sp(4, 46, 51)),
    ];
    findings.merge(&cfg_attr(&site_two).unwrap());

    let site_three = vec![
        ident("feature", 7, 15),
        Token::Eq(sp(7, 23, 24)),
        Token::LitStr("cargo-clippy".to_string(), sp(7, 25, 39)),
        Token::Comma(sp(7, 39, 40)),
        ident("allow", 7, 41),
        Token::Group(vec![ident("alice", 7, 47)], sp(7, 46, 53)),
        Token::Comma(sp(7, 53, 54)),
        ident("warn", 7, 55),
        Token::Group(vec![ident("bob", 7, 60)], sp(7, 59, 64)),
    ];
    findings.merge(&cfg_attr(&site_three).unwrap());

    assert_eq!(findings.entries_for(DirectiveKind::Allow, "asdf").len(), 1);
    assert_eq!(findings.entries_for(DirectiveKind::Allow, "jkl").len(), 1);
    assert_eq!(findings.entries_for(DirectiveKind::Allow, "alice").len(), 1);
    assert_eq!(findings.entries_for(DirectiveKind::Warn, "bob").len(), 1);
}
