//! The token model the parsers read: plain line/column positions, spans, and
//! a flat token kind with parenthesized groups kept as nested sub-streams.
//!
//! A host front end (whatever lexer or syntax tree it uses) converts each
//! annotation's argument tokens into this shape before calling the parsers;
//! only what the parsing logic actually inspects is carried: identifier text,
//! string-literal values, punctuation kinds, and source positions. A `Group`
//! stands for a parenthesized sub-stream only; any other delimiter, and any
//! token the grammar never looks at, is converted to `Other`.

use vstd::prelude::*;

verus! {

/// A (line, column) source coordinate.
#[derive(Clone, Copy, PartialEq, Eq, Structural, Debug)]
pub struct Position {
    pub line: usize,
    pub column: usize,
}

/// A contiguous source region, from `start` to `end`.
#[derive(Clone, Copy, PartialEq, Eq, Structural, Debug)]
pub struct Span {
    pub start: Position,
    pub end: Position,
}

impl Position {
    /// Lexicographic order on (line, column).
    pub open spec fn le(self, other: Position) -> bool {
        self.line < other.line || (self.line == other.line && self.column <= other.column)
    }
}

impl Span {
    /// A span is well formed when its start does not come after its end.
    pub open spec fn wf(self) -> bool {
        self.start.le(self.end)
    }
}

/// The closed set of directive kinds.
#[derive(Clone, Copy, PartialEq, Eq, Structural, Debug)]
pub enum DirectiveKind {
    Allow,
    Warn,
    Deny,
}

/// One token of an annotation's argument stream.
pub enum Token {
    /// An identifier (keywords included), with its text and span.
    Ident(String, Span),
    /// The `::` path separator.
    PathSep(Span),
    /// A `,`.
    Comma(Span),
    /// An `=`.
    Eq(Span),
    /// A string literal, with its unquoted value and the literal's span.
    LitStr(String, Span),
    /// A parenthesized sub-stream.
    Group(Vec<Token>, Span),
    /// Any token the grammar does not inspect.
    Other(Span),
}

/// Whether a token is an identifier with the given text.
pub open spec fn ident_is(t: Token, name: Seq<char>) -> bool {
    t matches Token::Ident(s, _) && s@ == name
}

/// The directive kind a keyword token selects, if any.
pub open spec fn spec_keyword_kind(t: Token) -> Option<DirectiveKind> {
    if ident_is(t, "allow"@) {
        Some(DirectiveKind::Allow)
    } else if ident_is(t, "warn"@) {
        Some(DirectiveKind::Warn)
    } else if ident_is(t, "deny"@) {
        Some(DirectiveKind::Deny)
    } else {
        None
    }
}

/// Equality of a `String` against a `&str`, reflected into the views.
pub fn string_eq_str(s: &String, t: &str) -> (r: bool)
    ensures
        r == (s@ == t@),
{
    let t_owned: String = t.to_owned();
    *s == t_owned
}

/// Whether a token is an identifier with the given text (executable form).
pub fn token_ident_is(t: &Token, name: &str) -> (r: bool)
    ensures
        r == ident_is(*t, name@),
{
    match t {
        Token::Ident(s, _) => string_eq_str(s, name),
        _ => false,
    }
}

/// The directive kind a keyword token selects, if any (executable form).
pub fn keyword_kind(t: &Token) -> (k: Option<DirectiveKind>)
    ensures
        k == spec_keyword_kind(*t),
{
    if token_ident_is(t, "allow") {
        Some(DirectiveKind::Allow)
    } else if token_ident_is(t, "warn") {
        Some(DirectiveKind::Warn)
    } else if token_ident_is(t, "deny") {
        Some(DirectiveKind::Deny)
    } else {
        None
    }
}

} // verus!
