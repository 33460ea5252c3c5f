//! The directive record: three ordered lists of (lint name, span) pairs, one
//! per directive kind, produced fresh by each parse and merged by per-kind
//! concatenation.

use vstd::prelude::*;
use crate::token::{DirectiveKind, Span};

verus! {

/// One extracted directive occurrence: a bare lint name and the source span
/// of the occurrence.
#[derive(Debug)]
pub struct LintDirective {
    pub name: String,
    pub span: Span,
}

/// Mathematical model of one directive occurrence.
#[verifier::ext_equal]
pub struct DirEntry {
    pub name: Seq<char>,
    pub span: Span,
}

impl View for LintDirective {
    type V = DirEntry;

    open spec fn view(&self) -> DirEntry {
        DirEntry { name: self.name@, span: self.span }
    }
}

/// The model of an ordered list of directive occurrences.
pub open spec fn dirs_model(s: Seq<LintDirective>) -> Seq<DirEntry> {
    s.map_values(|d: LintDirective| d@)
}

/// Mathematical model of a directive record.
#[verifier::ext_equal]
pub struct RecordModel {
    pub allow: Seq<DirEntry>,
    pub warn: Seq<DirEntry>,
    pub deny: Seq<DirEntry>,
}

impl RecordModel {
    /// The record with no occurrences of any kind.
    pub open spec fn empty() -> RecordModel {
        RecordModel { allow: Seq::empty(), warn: Seq::empty(), deny: Seq::empty() }
    }

    /// Whether the record holds no occurrence of any kind.
    pub open spec fn is_empty(self) -> bool {
        self.allow.len() == 0 && self.warn.len() == 0 && self.deny.len() == 0
    }

    /// The sequence the record holds for one kind.
    pub open spec fn of_kind(self, kind: DirectiveKind) -> Seq<DirEntry> {
        match kind {
            DirectiveKind::Allow => self.allow,
            DirectiveKind::Warn => self.warn,
            DirectiveKind::Deny => self.deny,
        }
    }

    /// The record with `entries` appended to the sequence of one kind.
    pub open spec fn add(self, kind: DirectiveKind, entries: Seq<DirEntry>) -> RecordModel {
        match kind {
            DirectiveKind::Allow => RecordModel { allow: self.allow + entries, ..self },
            DirectiveKind::Warn => RecordModel { warn: self.warn + entries, ..self },
            DirectiveKind::Deny => RecordModel { deny: self.deny + entries, ..self },
        }
    }
}

/// Per-kind concatenation of two records; the left operand's entries precede
/// the right operand's.
pub open spec fn record_concat(a: RecordModel, b: RecordModel) -> RecordModel {
    RecordModel { allow: a.allow + b.allow, warn: a.warn + b.warn, deny: a.deny + b.deny }
}

/// A directive record: the occurrences one annotation site yielded, kept in
/// discovery order, partitioned by kind.
#[derive(Debug)]
pub struct AWD {
    pub allow: Vec<LintDirective>,
    pub warn: Vec<LintDirective>,
    pub deny: Vec<LintDirective>,
}

impl View for AWD {
    type V = RecordModel;

    open spec fn view(&self) -> RecordModel {
        RecordModel {
            allow: dirs_model(self.allow@),
            warn: dirs_model(self.warn@),
            deny: dirs_model(self.deny@),
        }
    }
}

impl AWD {
    /// A record with no occurrences.
    pub fn new() -> (r: AWD)
        ensures
            r@ == RecordModel::empty(),
    {
        let r = AWD { allow: Vec::new(), warn: Vec::new(), deny: Vec::new() };
        proof {
            assert(r@ =~= RecordModel::empty());
        }
        r
    }

    /// Whether the record holds no occurrence of any kind.
    pub fn is_empty(&self) -> (r: bool)
        ensures
            r == self@.is_empty(),
    {
        self.allow.len() == 0 && self.warn.len() == 0 && self.deny.len() == 0
    }

    /// Merge `other` into `self`: same-kind sequences are concatenated, with
    /// `self`'s entries preceding `other`'s. No deduplication is performed.
    pub fn merge(&mut self, other: AWD)
        ensures
            final(self)@ == record_concat(old(self)@, other@),
    {
        let AWD { allow: mut a, warn: mut w, deny: mut d } = other;
        let ghost a0 = a@;
        let ghost w0 = w@;
        let ghost d0 = d@;
        self.allow.append(&mut a);
        self.warn.append(&mut w);
        self.deny.append(&mut d);
        proof {
            lemma_dirs_model_concat(old(self).allow@, a0);
            lemma_dirs_model_concat(old(self).warn@, w0);
            lemma_dirs_model_concat(old(self).deny@, d0);
            assert(final(self)@ =~= record_concat(old(self)@, other@));
        }
    }
}

impl Default for AWD {
    /// A record with no occurrences.
    fn default() -> (r: AWD)
        ensures
            r@ == RecordModel::empty(),
    {
        AWD::new()
    }
}

/// The model of a concatenation is the concatenation of the models.
pub proof fn lemma_dirs_model_concat(a: Seq<LintDirective>, b: Seq<LintDirective>)
    ensures
        dirs_model(a + b) == dirs_model(a) + dirs_model(b),
{
    assert(dirs_model(a + b) =~= dirs_model(a) + dirs_model(b));
}

/// Law: record merging is associative.
pub proof fn lemma_record_concat_assoc(a: RecordModel, b: RecordModel, c: RecordModel)
    ensures
        record_concat(record_concat(a, b), c) == record_concat(a, record_concat(b, c)),
{
    assert(record_concat(record_concat(a, b), c) =~= record_concat(a, record_concat(b, c)));
}

/// Law: the empty record is a left and right identity for merging.
pub proof fn lemma_record_concat_identity(a: RecordModel)
    ensures
        record_concat(a, RecordModel::empty()) == a,
        record_concat(RecordModel::empty(), a) == a,
{
    assert(record_concat(a, RecordModel::empty()) =~= a);
    assert(record_concat(RecordModel::empty(), a) =~= a);
}

} // verus!
