use lint_directives::findings::Findings;
use lint_directives::record::{LintDirective, AWD};
use lint_directives::token::{DirectiveKind, Position, Span};

fn sp(line: usize, c0: usize, c1: usize) -> Span {
    Span {
        start: Position { line, column: c0 },
        end: Position { line, column: c1 },
    }
}

fn dir(name: &str, span: Span) -> LintDirective {
    LintDirective { name: name.to_string(), span }
}

#[test]
fn test_merge_concatenates_per_kind_left_first() {
    let mut left = AWD::new();
    left.allow.push(dir("a", sp(1, 0, 1)));
    left.warn.push(dir("w", sp(1, 2, 3)));
    let mut right = AWD::new();
    right.allow.push(dir("b", sp(2, 0, 1)));
    right.deny.push(dir("d", sp(2, 2, 3)));
    left.merge(right);
    assert_eq!(left.allow.len(), 2);
    assert_eq!(left.allow[0].name, "a");
    assert_eq!(left.allow[1].name, "b");
    assert_eq!(left.warn.len(), 1);
    assert_eq!(left.warn[0].name, "w");
    assert_eq!(left.deny.len(), 1);
    assert_eq!(left.deny[0].name, "d");
}

#[test]
fn test_merge_empty_record_is_identity() {
    let mut awd = AWD::new();
    awd.allow.push(dir("a", sp(1, 0, 1)));
    awd.merge(AWD::new());
    assert_eq!(awd.allow.len(), 1);
    assert_eq!(awd.allow[0].name, "a");
    assert_eq!(awd.allow[0].span, sp(1, 0, 1));
    assert!(awd.warn.is_empty());
    assert!(awd.deny.is_empty());

    let mut empty = AWD::new();
    let mut other = AWD::new();
    other.deny.push(dir("d", sp(3, 0, 1)));
    empty.merge(other);
    assert_eq!(empty.deny.len(), 1);
    assert_eq!(empty.deny[0].name, "d");
}

#[test]
fn test_merge_keeps_duplicates() {
    let mut left = AWD::new();
    left.allow.push(dir("same", sp(1, 0, 4)));
    let mut right = AWD::new();
    right.allow.push(dir("same", sp(1, 0, 4)));
    left.merge(right);
    assert_eq!(left.allow.len(), 2);
}

#[test]
fn test_is_empty() {
    let mut awd = AWD::new();
    assert!(awd.is_empty());
    awd.warn.push(dir("w", sp(1, 0, 1)));
    assert!(!awd.is_empty());
    let fresh: AWD = Default::default();
    assert!(fresh.is_empty());
}

#[test]
fn test_findings_merge_and_query() {
    let mut record = AWD::new();
    record.allow.push(dir("a", sp(1, 0, 1)));
    record.allow.push(dir("b", sp(1, 2, 3)));
    record.warn.push(dir("a", sp(1, 4, 5)));
    let mut findings = Findings::new();
    findings.merge(&record);
    assert_eq!(findings.entries_for(DirectiveKind::Allow, "a"), vec![sp(1, 0, 1)]);
    assert_eq!(findings.entries_for(DirectiveKind::Allow, "b"), vec![sp(1, 2, 3)]);
    // the same name under another kind is a separate entry
    assert_eq!(findings.entries_for(DirectiveKind::Warn, "a"), vec![sp(1, 4, 5)]);
    assert!(findings.entries_for(DirectiveKind::Deny, "a").is_empty());
    assert!(findings.entries_for(DirectiveKind::Allow, "absent").is_empty());
}

#[test]
fn test_findings_merge_empty_record_changes_nothing() {
    let mut record = AWD::new();
    record.deny.push(dir("d", sp(2, 0, 1)));
    let mut findings = Findings::new();
    findings.merge(&record);
    findings.merge(&AWD::new());
    assert_eq!(findings.entries_for(DirectiveKind::Deny, "d"), vec![sp(2, 0, 1)]);
    assert_eq!(findings.deny.len(), 1);
}

#[test]
fn test_findings_keep_source_encounter_order() {
    // the same name repeated, within one record and across records
    let mut first = AWD::new();
    first.allow.push(dir("dup", sp(1, 0, 3)));
    first.allow.push(dir("other", sp(1, 4, 9)));
    first.allow.push(dir("dup", sp(1, 10, 13)));
    let mut second = AWD::new();
    second.allow.push(dir("dup", sp(2, 0, 3)));
    let mut findings = Findings::new();
    findings.merge(&first);
    findings.merge(&second);
    assert_eq!(
        findings.entries_for(DirectiveKind::Allow, "dup"),
        vec![sp(1, 0, 3), sp(1, 10, 13), sp(2, 0, 3)]
    );
    assert_eq!(findings.entries_for(DirectiveKind::Allow, "other"), vec![sp(1, 4, 9)]);
}
