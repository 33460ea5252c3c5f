//! The two leaf parsers.
//!
//! The namespaced-list parser (`allow` / `warn` / `deny`) reads the interior
//! of a direct `kind(...)` annotation: a comma-separated list of paths. It
//! keeps exactly the two-segment paths whose first segment is the target
//! namespace, `clippy`.
//!
//! The conditional-directive parser (`cfg_attr`) reads the interior of a
//! conditional annotation: a required `feature = "cargo-clippy"` clause, an
//! optional comma, then nested `allow` / `warn` / `deny` directives over bare
//! names. After the feature clause has been validated, any malformed content
//! ends collection and yields the record accumulated so far, never an error.
//!
//! The grammar is pinned down by spec functions over the token sequence
//! (`spec_path`, `spec_path_list`, `spec_directives`, `spec_cfg_attr`); every
//! parser's contract states its result as a function of those.

use vstd::prelude::*;
use crate::record::{dirs_model, DirEntry, LintDirective, RecordModel, AWD};
use crate::token::{
    ident_is, keyword_kind, spec_keyword_kind, string_eq_str, token_ident_is, Span, Token,
};

verus! {

/// One path segment: an identifier's text and span.
pub struct PathSegment {
    pub name: String,
    pub span: Span,
}

/// Mathematical model of one path segment.
#[verifier::ext_equal]
pub struct Segment {
    pub name: Seq<char>,
    pub span: Span,
}

impl View for PathSegment {
    type V = Segment;

    open spec fn view(&self) -> Segment {
        Segment { name: self.name@, span: self.span }
    }
}

/// The model of a list of path segments.
pub open spec fn segs_model(s: Seq<PathSegment>) -> Seq<Segment> {
    s.map_values(|ps: PathSegment| ps@)
}

/// The structural errors that cross the parser boundary.
#[derive(Clone, Copy, PartialEq, Eq, Structural, Debug)]
pub enum ParseError {
    /// The input is not an instance of the shape the invoked parser handles;
    /// the caller misidentified the annotation.
    ShapeMismatch,
    /// The conditional annotation's feature clause names a different flag;
    /// the span is the literal's.
    FeatureLiteralMismatch(Span),
}

/// Parse one path, `ident (:: ident)*`, starting at `i`; `acc` holds the
/// segments already read. Yields the segments and the position just past the
/// path, or nothing if no path starts at `i`.
pub open spec fn spec_path(toks: Seq<Token>, i: int, acc: Seq<Segment>) -> Option<
    (Seq<Segment>, int),
>
    decreases toks.len() - i
        when 0 <= i <= toks.len()
{
    if i < toks.len() {
        match toks[i] {
            Token::Ident(name, sp) => {
                let acc2 = acc.push(Segment { name: name@, span: sp });
                if i + 1 < toks.len() && (toks[i + 1] is PathSep) {
                    spec_path(toks, i + 2, acc2)
                } else {
                    Some((acc2, i + 1))
                }
            },
            _ => None,
        }
    } else {
        None
    }
}

/// Parse a comma-separated list of paths from `i` to the end of the stream;
/// a trailing comma is permitted, and an empty rest yields `acc` itself.
/// Yields nothing if the rest of the stream is not such a list.
pub open spec fn spec_path_list(toks: Seq<Token>, i: int, acc: Seq<Seq<Segment>>) -> Option<
    Seq<Seq<Segment>>,
>
    decreases toks.len() - i
        when 0 <= i <= toks.len()
{
    if i == toks.len() {
        Some(acc)
    } else {
        match spec_path(toks, i, Seq::empty()) {
            Some((segs, j)) => {
                if j <= i || j > toks.len() {
                    None
                } else if j == toks.len() {
                    Some(acc.push(segs))
                } else if toks[j] is Comma {
                    spec_path_list(toks, j + 1, acc.push(segs))
                } else {
                    None
                }
            },
            None => None,
        }
    }
}

/// What one path contributes under the direct form: exactly one entry if it
/// has exactly two segments and its first segment is the target namespace —
/// the bare name is the second segment, the span runs from the first
/// segment's start to the second segment's end — and nothing otherwise.
pub open spec fn clippy_item_entries(p: Seq<Segment>) -> Seq<DirEntry> {
    if p.len() == 2 && p[0].name == "clippy"@ {
        seq![
            DirEntry {
                name: p[1].name,
                span: Span { start: p[0].span.start, end: p[1].span.end },
            },
        ]
    } else {
        Seq::empty()
    }
}

/// The entries a path list contributes under the direct form, in list order.
pub open spec fn clippy_entries(paths: Seq<Seq<Segment>>) -> Seq<DirEntry>
    decreases paths.len(),
{
    if paths.len() == 0 {
        Seq::empty()
    } else {
        clippy_entries(paths.drop_last()) + clippy_item_entries(paths.last())
    }
}

/// What one path contributes under the conditional form: exactly one entry
/// if it is a single bare identifier — its own name and span — and nothing
/// otherwise.
pub open spec fn bare_item_entries(p: Seq<Segment>) -> Seq<DirEntry> {
    if p.len() == 1 {
        seq![DirEntry { name: p[0].name, span: p[0].span }]
    } else {
        Seq::empty()
    }
}

/// The entries a path list contributes under the conditional form, in list
/// order.
pub open spec fn bare_entries(paths: Seq<Seq<Segment>>) -> Seq<DirEntry>
    decreases paths.len(),
{
    if paths.len() == 0 {
        Seq::empty()
    } else {
        bare_entries(paths.drop_last()) + bare_item_entries(paths.last())
    }
}

/// The nested-directive loop of the conditional form, from position `i`,
/// with `acc` the record accumulated so far. A directive keyword followed by
/// a parenthesized bare-name list (and an optional comma) appends its entries
/// and continues; anything else — end of input, a foreign token, a keyword
/// without a well-formed list — ends collection with `acc`.
pub open spec fn spec_directives(toks: Seq<Token>, i: int, acc: RecordModel) -> RecordModel
    decreases toks.len() - i
        when 0 <= i <= toks.len()
{
    if i < toks.len() {
        match spec_keyword_kind(toks[i]) {
            Some(kind) => {
                if i + 1 < toks.len() {
                    match toks[i + 1] {
                        Token::Group(inner, _) => {
                            let next: int = if i + 2 < toks.len() && (toks[i + 2] is Comma) {
                                i + 3
                            } else {
                                i + 2
                            };
                            match spec_path_list(inner@, 0, Seq::empty()) {
                                Some(paths) => spec_directives(
                                    toks,
                                    next,
                                    acc.add(kind, bare_entries(paths)),
                                ),
                                None => acc,
                            }
                        },
                        _ => acc,
                    }
                } else {
                    acc
                }
            },
            None => acc,
        }
    } else {
        acc
    }
}

/// The outcome the conditional-directive parser owes.
pub enum CfgOutcome {
    /// The feature clause was present and named the expected flag; the record
    /// holds whatever the nested-directive loop collected.
    Record(RecordModel),
    /// The feature clause was present but named another flag; carries the
    /// literal's span.
    FeatureMismatch(Span),
    /// No well-formed feature clause starts the stream.
    Shape,
}

/// The conditional form as a whole: `feature` `=` string literal, then —
/// only if a comma follows — the nested-directive loop.
pub open spec fn spec_cfg_attr(toks: Seq<Token>) -> CfgOutcome {
    if toks.len() >= 3 && ident_is(toks[0], "feature"@) && (toks[1] is Eq) && (
    toks[2] is LitStr) {
        if toks[2]->LitStr_0@ != "cargo-clippy"@ {
            CfgOutcome::FeatureMismatch(toks[2]->LitStr_1)
        } else if toks.len() >= 4 && (toks[3] is Comma) {
            CfgOutcome::Record(spec_directives(toks, 4, RecordModel::empty()))
        } else {
            CfgOutcome::Record(RecordModel::empty())
        }
    } else {
        CfgOutcome::Shape
    }
}

proof fn lemma_segs_model_push(s: Seq<PathSegment>, x: PathSegment)
    ensures
        segs_model(s.push(x)) == segs_model(s).push(x@),
{
    assert(segs_model(s.push(x)) =~= segs_model(s).push(x@));
}

proof fn lemma_dirs_model_push(s: Seq<LintDirective>, x: LintDirective)
    ensures
        dirs_model(s.push(x)) == dirs_model(s).push(x@),
{
    assert(dirs_model(s.push(x)) =~= dirs_model(s).push(x@));
}

proof fn lemma_clippy_entries_push(paths: Seq<Seq<Segment>>, p: Seq<Segment>)
    ensures
        clippy_entries(paths.push(p)) == clippy_entries(paths) + clippy_item_entries(p),
{
    assert(paths.push(p).drop_last() =~= paths);
    assert(paths.push(p).last() == p);
}

proof fn lemma_bare_entries_push(paths: Seq<Seq<Segment>>, p: Seq<Segment>)
    ensures
        bare_entries(paths.push(p)) == bare_entries(paths) + bare_item_entries(p),
{
    assert(paths.push(p).drop_last() =~= paths);
    assert(paths.push(p).last() == p);
}

/// Parse one path starting at `start`. Yields the segments and the position
/// just past the path, exactly as `spec_path` does.
fn parse_path(tokens: &Vec<Token>, start: usize) -> (r: Option<(Vec<PathSegment>, usize)>)
    requires
        start <= tokens@.len(),
    ensures
        (match r {
            Some((segs, j)) => {
                &&& spec_path(tokens@, start as int, Seq::empty()) == Some(
                    (segs_model(segs@), j as int),
                )
                &&& start < j <= tokens@.len()
            },
            None => spec_path(tokens@, start as int, Seq::empty()) is None,
        }),
{
    let mut i: usize = start;
    let mut segs: Vec<PathSegment> = Vec::new();
    proof {
        assert(segs_model(segs@) =~= Seq::<Segment>::empty());
    }
    loop
        invariant
            start <= i <= tokens@.len(),
            spec_path(tokens@, start as int, Seq::empty()) == spec_path(
                tokens@,
                i as int,
                segs_model(segs@),
            ),
        decreases tokens@.len() - i,
    {
        if i >= tokens.len() {
            return None;
        }
        let (name, sp) = match &tokens[i] {
            Token::Ident(s, sp) => (s.clone(), *sp),
            _ => {
                return None;
            },
        };
        proof {
            lemma_segs_model_push(segs@, PathSegment { name: name, span: sp });
        }
        segs.push(PathSegment { name, span: sp });
        let has_sep = i + 1 < tokens.len() && (match &tokens[i + 1] {
            Token::PathSep(_) => true,
            _ => false,
        });
        if has_sep {
            i = i + 2;
        } else {
            return Some((segs, i + 1));
        }
    }
}

/// Parse the interior of a direct `kind(...)` annotation: a comma-separated
/// path list. On a well-formed list, the result holds exactly the entries of
/// the two-segment paths under the target namespace, in list order; on
/// anything else, the shape-mismatch error.
pub fn collect_clippy_lints(tokens: &Vec<Token>) -> (r: Result<Vec<LintDirective>, ParseError>)
    ensures
        (match spec_path_list(tokens@, 0, Seq::empty()) {
            Some(paths) => r matches Ok(v) && dirs_model(v@) == clippy_entries(paths),
            None => r == Err::<Vec<LintDirective>, ParseError>(ParseError::ShapeMismatch),
        }),
{
    let mut i: usize = 0;
    let mut out: Vec<LintDirective> = Vec::new();
    let ghost mut paths_acc: Seq<Seq<Segment>> = Seq::empty();
    proof {
        assert(dirs_model(out@) =~= Seq::<DirEntry>::empty());
    }
    loop
        invariant
            i <= tokens@.len(),
            spec_path_list(tokens@, 0, Seq::empty()) == spec_path_list(
                tokens@,
                i as int,
                paths_acc,
            ),
            dirs_model(out@) == clippy_entries(paths_acc),
        decreases tokens@.len() - i,
    {
        if i == tokens.len() {
            return Ok(out);
        }
        let parsed = parse_path(tokens, i);
        let (segs, j) = match parsed {
            Some(p) => p,
            None => {
                return Err(ParseError::ShapeMismatch);
            },
        };
        let ghost m = segs_model(segs@);
        if segs.len() == 2 && string_eq_str(&segs[0].name, "clippy") {
            let nm = segs[1].name.clone();
            let sp = Span { start: segs[0].span.start, end: segs[1].span.end };
            proof {
                lemma_dirs_model_push(out@, LintDirective { name: nm, span: sp });
                assert(clippy_item_entries(m) == seq![
                    DirEntry { name: nm@, span: sp },
                ]);
            }
            out.push(LintDirective { name: nm, span: sp });
        } else {
            proof {
                assert(clippy_item_entries(m) == Seq::<DirEntry>::empty());
            }
        }
        proof {
            lemma_clippy_entries_push(paths_acc, m);
            assert(dirs_model(out@) =~= clippy_entries(paths_acc.push(m)));
            paths_acc = paths_acc.push(m);
        }
        if j == tokens.len() {
            return Ok(out);
        }
        let is_sep = match &tokens[j] {
            Token::Comma(_) => true,
            _ => false,
        };
        if is_sep {
            i = j + 1;
        } else {
            return Err(ParseError::ShapeMismatch);
        }
    }
}

/// The direct form `allow(...)`: the record holds the namespaced entries
/// under the allow kind alone.
pub fn allow(tokens: &Vec<Token>) -> (r: Result<AWD, ParseError>)
    ensures
        (match spec_path_list(tokens@, 0, Seq::empty()) {
            Some(paths) => r matches Ok(awd) && awd@ == RecordModel {
                allow: clippy_entries(paths),
                warn: Seq::empty(),
                deny: Seq::empty(),
            },
            None => r == Err::<AWD, ParseError>(ParseError::ShapeMismatch),
        }),
{
    match collect_clippy_lints(tokens) {
        Ok(lints) => {
            let awd = AWD { allow: lints, warn: Vec::new(), deny: Vec::new() };
            proof {
                assert(awd@ =~= RecordModel {
                    allow: dirs_model(awd.allow@),
                    warn: Seq::empty(),
                    deny: Seq::empty(),
                });
            }
            Ok(awd)
        },
        Err(e) => Err(e),
    }
}

/// The direct form `warn(...)`: the record holds the namespaced entries
/// under the warn kind alone.
pub fn warn(tokens: &Vec<Token>) -> (r: Result<AWD, ParseError>)
    ensures
        (match spec_path_list(tokens@, 0, Seq::empty()) {
            Some(paths) => r matches Ok(awd) && awd@ == RecordModel {
                allow: Seq::empty(),
                warn: clippy_entries(paths),
                deny: Seq::empty(),
            },
            None => r == Err::<AWD, ParseError>(ParseError::ShapeMismatch),
        }),
{
    match collect_clippy_lints(tokens) {
        Ok(lints) => {
            let awd = AWD { allow: Vec::new(), warn: lints, deny: Vec::new() };
            proof {
                assert(awd@ =~= RecordModel {
                    allow: Seq::empty(),
                    warn: dirs_model(awd.warn@),
                    deny: Seq::empty(),
                });
            }
            Ok(awd)
        },
        Err(e) => Err(e),
    }
}

/// The direct form `deny(...)`: the record holds the namespaced entries
/// under the deny kind alone.
pub fn deny(tokens: &Vec<Token>) -> (r: Result<AWD, ParseError>)
    ensures
        (match spec_path_list(tokens@, 0, Seq::empty()) {
            Some(paths) => r matches Ok(awd) && awd@ == RecordModel {
                allow: Seq::empty(),
                warn: Seq::empty(),
                deny: clippy_entries(paths),
            },
            None => r == Err::<AWD, ParseError>(ParseError::ShapeMismatch),
        }),
{
    match collect_clippy_lints(tokens) {
        Ok(lints) => {
            let awd = AWD { allow: Vec::new(), warn: Vec::new(), deny: lints };
            proof {
                assert(awd@ =~= RecordModel {
                    allow: Seq::empty(),
                    warn: Seq::empty(),
                    deny: dirs_model(awd.deny@),
                });
            }
            Ok(awd)
        },
        Err(e) => Err(e),
    }
}

/// Parse the interior of one nested directive's parenthesized list: a
/// comma-separated path list of which only the single bare identifiers are
/// kept, each under its own span.
pub fn cfg_attr_inner(tokens: &Vec<Token>) -> (r: Result<Vec<LintDirective>, ParseError>)
    ensures
        (match spec_path_list(tokens@, 0, Seq::empty()) {
            Some(paths) => r matches Ok(v) && dirs_model(v@) == bare_entries(paths),
            None => r == Err::<Vec<LintDirective>, ParseError>(ParseError::ShapeMismatch),
        }),
{
    let mut i: usize = 0;
    let mut out: Vec<LintDirective> = Vec::new();
    let ghost mut paths_acc: Seq<Seq<Segment>> = Seq::empty();
    proof {
        assert(dirs_model(out@) =~= Seq::<DirEntry>::empty());
    }
    loop
        invariant
            i <= tokens@.len(),
            spec_path_list(tokens@, 0, Seq::empty()) == spec_path_list(
                tokens@,
                i as int,
                paths_acc,
            ),
            dirs_model(out@) == bare_entries(paths_acc),
        decreases tokens@.len() - i,
    {
        if i == tokens.len() {
            return Ok(out);
        }
        let parsed = parse_path(tokens, i);
        let (segs, j) = match parsed {
            Some(p) => p,
            None => {
                return Err(ParseError::ShapeMismatch);
            },
        };
        let ghost m = segs_model(segs@);
        if segs.len() == 1 {
            let nm = segs[0].name.clone();
            let sp = segs[0].span;
            proof {
                lemma_dirs_model_push(out@, LintDirective { name: nm, span: sp });
                assert(bare_item_entries(m) == seq![DirEntry { name: nm@, span: sp }]);
            }
            out.push(LintDirective { name: nm, span: sp });
        } else {
            proof {
                assert(bare_item_entries(m) == Seq::<DirEntry>::empty());
            }
        }
        proof {
            lemma_bare_entries_push(paths_acc, m);
            assert(dirs_model(out@) =~= bare_entries(paths_acc.push(m)));
            paths_acc = paths_acc.push(m);
        }
        if j == tokens.len() {
            return Ok(out);
        }
        let is_sep = match &tokens[j] {
            Token::Comma(_) => true,
            _ => false,
        };
        if is_sep {
            i = j + 1;
        } else {
            return Err(ParseError::ShapeMismatch);
        }
    }
}

/// The conditional form. Fails with a shape mismatch when no feature clause
/// starts the stream, with a feature-literal mismatch (carrying the
/// literal's span) when the clause names another flag, and otherwise returns
/// the record the nested-directive loop collected — malformed content after
/// the validated clause ends collection, it is never an error.
pub fn cfg_attr(tokens: &Vec<Token>) -> (r: Result<AWD, ParseError>)
    ensures
        (match spec_cfg_attr(tokens@) {
            CfgOutcome::Record(m) => r matches Ok(awd) && awd@ == m,
            CfgOutcome::FeatureMismatch(sp) => r == Err::<AWD, ParseError>(
                ParseError::FeatureLiteralMismatch(sp),
            ),
            CfgOutcome::Shape => r == Err::<AWD, ParseError>(ParseError::ShapeMismatch),
        }),
{
    if tokens.len() < 3 {
        return Err(ParseError::ShapeMismatch);
    }
    if !token_ident_is(&tokens[0], "feature") {
        return Err(ParseError::ShapeMismatch);
    }
    let eq_ok = match &tokens[1] {
        Token::Eq(_) => true,
        _ => false,
    };
    if !eq_ok {
        return Err(ParseError::ShapeMismatch);
    }
    match &tokens[2] {
        Token::LitStr(v, sp) => {
            if !string_eq_str(v, "cargo-clippy") {
                return Err(ParseError::FeatureLiteralMismatch(*sp));
            }
        },
        _ => {
            return Err(ParseError::ShapeMismatch);
        },
    }
    let mut awd = AWD::new();
    if tokens.len() < 4 {
        return Ok(awd);
    }
    let comma_ok = match &tokens[3] {
        Token::Comma(_) => true,
        _ => false,
    };
    if !comma_ok {
        return Ok(awd);
    }
    let mut i: usize = 4;
    loop
        invariant
            4 <= i <= tokens@.len(),
            spec_cfg_attr(tokens@) == CfgOutcome::Record(
                spec_directives(tokens@, 4, RecordModel::empty()),
            ),
            spec_directives(tokens@, 4, RecordModel::empty()) == spec_directives(
                tokens@,
                i as int,
                awd@,
            ),
        decreases tokens@.len() - i,
    {
        if i >= tokens.len() {
            return Ok(awd);
        }
        let kind = match keyword_kind(&tokens[i]) {
            Some(k) => k,
            None => {
                return Ok(awd);
            },
        };
        if i + 1 >= tokens.len() {
            return Ok(awd);
        }
        let inner_parsed = match &tokens[i + 1] {
            Token::Group(inner, _) => cfg_attr_inner(inner),
            _ => {
                return Ok(awd);
            },
        };
        let mut entries = match inner_parsed {
            Ok(v) => v,
            Err(_) => {
                return Ok(awd);
            },
        };
        let ghost entries0 = entries@;
        let ghost awd0 = awd@;
        let ghost old_allow = awd.allow@;
        let ghost old_warn = awd.warn@;
        let ghost old_deny = awd.deny@;
        match kind {
            crate::token::DirectiveKind::Allow => awd.allow.append(&mut entries),
            crate::token::DirectiveKind::Warn => awd.warn.append(&mut entries),
            crate::token::DirectiveKind::Deny => awd.deny.append(&mut entries),
        }
        proof {
            crate::record::lemma_dirs_model_concat(old_allow, entries0);
            crate::record::lemma_dirs_model_concat(old_warn, entries0);
            crate::record::lemma_dirs_model_concat(old_deny, entries0);
            assert(awd@ =~= awd0.add(kind, dirs_model(entries0)));
        }
        let next: usize = if i + 2 < tokens.len() && (match &tokens[i + 2] {
            Token::Comma(_) => true,
            _ => false,
        }) {
            i + 3
        } else {
            i + 2
        };
        i = next;
    }
}

/// Law: over a parsed list, each path contributes its own entries under the
/// direct form, in list order — so the output holds exactly one entry per
/// matching occurrence, and nothing for any other item.
pub proof fn lemma_clippy_entries_elementwise(paths: Seq<Seq<Segment>>)
    ensures
        clippy_entries(paths) == Seq::new(
            paths.len(),
            |k: int| clippy_item_entries(paths[k]),
        ).flatten(),
    decreases paths.len(),
{
    let f = Seq::new(paths.len(), |k: int| clippy_item_entries(paths[k]));
    if paths.len() == 0 {
        assert(f.flatten() =~= Seq::<DirEntry>::empty());
    } else {
        let pre = paths.drop_last();
        lemma_clippy_entries_elementwise(pre);
        let fpre = Seq::new(pre.len(), |k: int| clippy_item_entries(pre[k]));
        assert(f =~= fpre.push(clippy_item_entries(paths.last())));
        fpre.lemma_flatten_push(clippy_item_entries(paths.last()));
    }
}

/// Law: a two-segment path whose first segment is the target namespace
/// yields exactly one entry — the second segment's text, under a span from
/// the first segment's start to the second segment's end.
pub proof fn lemma_namespaced_path_kept(p: Seq<Segment>)
    requires
        p.len() == 2,
        p[0].name == "clippy"@,
    ensures
        clippy_item_entries(p) == seq![
            DirEntry {
                name: p[1].name,
                span: Span { start: p[0].span.start, end: p[1].span.end },
            },
        ],
{
}

/// Law: a path with one segment, with three or more segments, or whose first
/// segment is not the target namespace yields no entry under the direct form.
pub proof fn lemma_other_path_skipped(p: Seq<Segment>)
    requires
        p.len() != 2 || p[0].name != "clippy"@,
    ensures
        clippy_item_entries(p) == Seq::<DirEntry>::empty(),
{
}

/// The combined span of a kept namespaced occurrence is well formed whenever
/// its two segments stand in source order.
pub proof fn lemma_namespaced_span_wf(p: Seq<Segment>)
    requires
        p.len() == 2,
        p[0].name == "clippy"@,
        p[0].span.start.le(p[1].span.end),
    ensures
        clippy_item_entries(p)[0].span.wf(),
{
}

/// Law: a conditional annotation whose feature literal names another flag
/// yields the feature-literal mismatch error, carrying the literal's span.
pub proof fn lemma_feature_literal_mismatch(toks: Seq<Token>)
    requires
        toks.len() >= 3,
        ident_is(toks[0], "feature"@),
        toks[1] is Eq,
        toks[2] is LitStr,
        toks[2]->LitStr_0@ != "cargo-clippy"@,
    ensures
        spec_cfg_attr(toks) == CfgOutcome::FeatureMismatch(toks[2]->LitStr_1),
{
}

/// Law: a conditional annotation with the expected feature literal but no
/// comma after it yields the empty record, not an error.
pub proof fn lemma_no_trailing_comma_yields_empty(toks: Seq<Token>)
    requires
        toks.len() >= 3,
        ident_is(toks[0], "feature"@),
        toks[1] is Eq,
        toks[2] is LitStr,
        toks[2]->LitStr_0@ == "cargo-clippy"@,
        !(toks.len() >= 4 && toks[3] is Comma),
    ensures
        spec_cfg_attr(toks) == CfgOutcome::Record(RecordModel::empty()),
{
}

/// Law: the nested-directive loop stops at the first token that is not a
/// directive keyword, and retains everything collected before it.
pub proof fn lemma_unrecognized_token_stops(toks: Seq<Token>, i: int, acc: RecordModel)
    requires
        0 <= i <= toks.len(),
        i < toks.len() ==> spec_keyword_kind(toks[i]) is None,
    ensures
        spec_directives(toks, i, acc) == acc,
{
}

} // verus!
