//! The findings aggregator: a mapping from lint name to the ordered spans
//! recorded for it, partitioned by directive kind, populated by merging the
//! directive records of many annotation sites.
//!
//! Each kind's mapping is an association table in which a name occurs at most
//! once; a merge appends each occurrence's span to its name's entry, in the
//! record's own order, creating the entry on first sight.

use vstd::prelude::*;
use crate::record::{dirs_model, DirEntry, RecordModel, AWD};
use crate::token::{string_eq_str, DirectiveKind, Span};

verus! {

/// All spans recorded so far for one lint name, in discovery order.
pub struct NamedSpans {
    pub name: String,
    pub spans: Vec<Span>,
}

/// Mathematical model of one name's entry.
#[verifier::ext_equal]
pub struct NamedSpansModel {
    pub name: Seq<char>,
    pub spans: Seq<Span>,
}

impl View for NamedSpans {
    type V = NamedSpansModel;

    open spec fn view(&self) -> NamedSpansModel {
        NamedSpansModel { name: self.name@, spans: self.spans@ }
    }
}

/// The model of one kind's association table.
pub open spec fn table_model(s: Seq<NamedSpans>) -> Seq<NamedSpansModel> {
    s.map_values(|x: NamedSpans| x@)
}

/// The spans a table holds for a name: those of its first entry with that
/// name, or none at all.
pub open spec fn spec_lookup(table: Seq<NamedSpansModel>, name: Seq<char>) -> Seq<Span>
    decreases table.len(),
{
    if table.len() == 0 {
        Seq::empty()
    } else if table[0].name == name {
        table[0].spans
    } else {
        spec_lookup(table.drop_first(), name)
    }
}

/// The spans that a record's entries carry for one name, in entry order.
pub open spec fn entry_spans(entries: Seq<DirEntry>, name: Seq<char>) -> Seq<Span>
    decreases entries.len(),
{
    if entries.len() == 0 {
        Seq::empty()
    } else {
        let rest = entry_spans(entries.drop_last(), name);
        if entries.last().name == name {
            rest.push(entries.last().span)
        } else {
            rest
        }
    }
}

/// The cross-site aggregate: one association table per directive kind.
pub struct Findings {
    pub allow: Vec<NamedSpans>,
    pub warn: Vec<NamedSpans>,
    pub deny: Vec<NamedSpans>,
}

/// Mathematical model of the aggregate.
#[verifier::ext_equal]
pub struct FindingsModel {
    pub allow: Seq<NamedSpansModel>,
    pub warn: Seq<NamedSpansModel>,
    pub deny: Seq<NamedSpansModel>,
}

impl View for Findings {
    type V = FindingsModel;

    open spec fn view(&self) -> FindingsModel {
        FindingsModel {
            allow: table_model(self.allow@),
            warn: table_model(self.warn@),
            deny: table_model(self.deny@),
        }
    }
}

impl FindingsModel {
    /// The aggregate with nothing recorded.
    pub open spec fn empty() -> FindingsModel {
        FindingsModel { allow: Seq::empty(), warn: Seq::empty(), deny: Seq::empty() }
    }

    /// One kind's table.
    pub open spec fn of_kind(self, kind: DirectiveKind) -> Seq<NamedSpansModel> {
        match kind {
            DirectiveKind::Allow => self.allow,
            DirectiveKind::Warn => self.warn,
            DirectiveKind::Deny => self.deny,
        }
    }

    /// The ordered spans recorded for one name under one kind.
    pub open spec fn entries_for(self, kind: DirectiveKind, name: Seq<char>) -> Seq<Span> {
        spec_lookup(self.of_kind(kind), name)
    }
}

proof fn lemma_lookup_update(table: Seq<NamedSpansModel>, j: int, e: NamedSpansModel)
    requires
        0 <= j < table.len(),
        forall|k: int| 0 <= k < j ==> table[k].name != table[j].name,
        e.name == table[j].name,
    ensures
        spec_lookup(table, table[j].name) == table[j].spans,
        spec_lookup(table.update(j, e), table[j].name) == e.spans,
        forall|n: Seq<char>|
            n != table[j].name ==> spec_lookup(table.update(j, e), n) == spec_lookup(table, n),
    decreases j,
{
    let upd = table.update(j, e);
    if j == 0 {
        assert(upd[0] == e);
        assert(upd.drop_first() =~= table.drop_first());
        assert forall|n: Seq<char>| n != table[j].name implies spec_lookup(upd, n) == spec_lookup(
            table,
            n,
        ) by {
            assert(spec_lookup(upd, n) == spec_lookup(upd.drop_first(), n));
            assert(spec_lookup(table, n) == spec_lookup(table.drop_first(), n));
            assert(upd.drop_first() =~= table.drop_first());
        }
    } else {
        assert(upd[0] == table[0]);
        assert(upd.drop_first() =~= table.drop_first().update(j - 1, e));
        lemma_lookup_update(table.drop_first(), j - 1, e);
        assert(table.drop_first()[j - 1] == table[j]);
        assert forall|n: Seq<char>| n != table[j].name implies spec_lookup(upd, n) == spec_lookup(
            table,
            n,
        ) by {
            if table[0].name == n {
                assert(spec_lookup(upd, n) == upd[0].spans);
                assert(spec_lookup(table, n) == table[0].spans);
            } else {
                assert(spec_lookup(upd, n) == spec_lookup(upd.drop_first(), n));
                assert(spec_lookup(table, n) == spec_lookup(table.drop_first(), n));
                assert(upd.drop_first() =~= table.drop_first().update(j - 1, e));
                assert(spec_lookup(table.drop_first().update(j - 1, e), n) == spec_lookup(
                    table.drop_first(),
                    n,
                ));
            }
        }
    }
}

proof fn lemma_lookup_push_new(table: Seq<NamedSpansModel>, e: NamedSpansModel)
    requires
        forall|k: int| 0 <= k < table.len() ==> table[k].name != e.name,
    ensures
        spec_lookup(table, e.name) == Seq::<Span>::empty(),
        spec_lookup(table.push(e), e.name) == e.spans,
        forall|n: Seq<char>|
            n != e.name ==> spec_lookup(table.push(e), n) == spec_lookup(table, n),
    decreases table.len(),
{
    let pushed = table.push(e);
    if table.len() == 0 {
        assert(pushed[0] == e);
        assert forall|n: Seq<char>| n != e.name implies spec_lookup(pushed, n) == spec_lookup(
            table,
            n,
        ) by {
            assert(spec_lookup(pushed, n) == spec_lookup(pushed.drop_first(), n));
            assert(pushed.drop_first() =~= Seq::<NamedSpansModel>::empty());
            assert(spec_lookup(Seq::<NamedSpansModel>::empty(), n) == Seq::<Span>::empty());
        }
    } else {
        assert(pushed[0] == table[0]);
        assert(pushed.drop_first() =~= table.drop_first().push(e));
        lemma_lookup_push_new(table.drop_first(), e);
        assert forall|n: Seq<char>| n != e.name implies spec_lookup(pushed, n) == spec_lookup(
            table,
            n,
        ) by {
            if table[0].name == n {
                assert(spec_lookup(pushed, n) == pushed[0].spans);
                assert(spec_lookup(table, n) == table[0].spans);
            } else {
                assert(spec_lookup(pushed, n) == spec_lookup(pushed.drop_first(), n));
                assert(spec_lookup(table, n) == spec_lookup(table.drop_first(), n));
                assert(pushed.drop_first() =~= table.drop_first().push(e));
                assert(spec_lookup(table.drop_first().push(e), n) == spec_lookup(
                    table.drop_first(),
                    n,
                ));
            }
        }
    }
}

/// Record one more span for one name in one kind's table: appended to the
/// name's entry, which is created on first sight.
fn add_span(list: &mut Vec<NamedSpans>, name: &String, span: Span)
    ensures
        spec_lookup(table_model(final(list)@), name@) == spec_lookup(
            table_model(old(list)@),
            name@,
        ).push(span),
        forall|n: Seq<char>|
            n != name@ ==> spec_lookup(table_model(final(list)@), n) == spec_lookup(
                table_model(old(list)@),
                n,
            ),
{
    let ghost table0 = table_model(list@);
    let mut j: usize = 0;
    loop
        invariant
            j <= list@.len(),
            list@ == old(list)@,
            table0 == table_model(list@),
            forall|k: int| 0 <= k < j ==> table0[k].name != name@,
        decreases list@.len() - j,
    {
        if j == list.len() {
            let mut spans: Vec<Span> = Vec::new();
            spans.push(span);
            let entry = NamedSpans { name: name.clone(), spans };
            proof {
                lemma_lookup_push_new(table0, entry@);
                assert(entry@.spans =~= spec_lookup(table0, name@).push(span));
            }
            list.push(entry);
            proof {
                assert(table_model(list@) =~= table0.push(entry@));
            }
            return ;
        }
        let found = string_eq_str(&list[j].name, name.as_str());
        if found {
            proof {
                assert(table0[j as int].name == name@);
            }
            let mut entry = list.remove(j);
            entry.spans.push(span);
            proof {
                lemma_lookup_update(table0, j as int, entry@);
            }
            list.insert(j, entry);
            proof {
                assert(list@ =~= old(list)@.update(j as int, entry));
                assert(table_model(list@) =~= table0.update(j as int, entry@));
            }
            return ;
        }
        j = j + 1;
    }
}

/// Merge one record's entries for one kind into that kind's table, span by
/// span, in the record's own order.
fn merge_entries(list: &mut Vec<NamedSpans>, entries: &Vec<crate::record::LintDirective>)
    ensures
        forall|n: Seq<char>|
            spec_lookup(table_model(final(list)@), n) == spec_lookup(table_model(old(list)@), n)
                + entry_spans(dirs_model(entries@), n),
        entries@.len() == 0 ==> final(list)@ == old(list)@,
{
    let ghost t = dirs_model(entries@);
    if entries.len() == 0 {
        proof {
            assert forall|n: Seq<char>|
                spec_lookup(table_model(list@), n) == spec_lookup(table_model(old(list)@), n)
                    + entry_spans(t, n) by {
                assert(entry_spans(t, n) =~= Seq::<Span>::empty());
                assert(spec_lookup(table_model(list@), n) + Seq::<Span>::empty() =~= spec_lookup(
                    table_model(list@),
                    n,
                ));
            }
        }
        return ;
    }
    let mut i: usize = 0;
    loop
        invariant
            i <= entries@.len(),
            0 < entries@.len(),
            t == dirs_model(entries@),
            forall|n: Seq<char>|
                spec_lookup(table_model(list@), n) == spec_lookup(table_model(old(list)@), n)
                    + entry_spans(t.take(i as int), n),
        decreases entries@.len() - i,
    {
        if i == entries.len() {
            proof {
                assert(t.take(i as int) =~= t);
            }
            return ;
        }
        let ghost table_mid = table_model(list@);
        let d = &entries[i];
        add_span(list, &d.name, d.span);
        proof {
            assert(t.take(i as int + 1).drop_last() =~= t.take(i as int));
            assert(t.take(i as int + 1).last() == entries@[i as int]@);
            assert forall|n: Seq<char>|
                spec_lookup(table_model(list@), n) == spec_lookup(table_model(old(list)@), n)
                    + entry_spans(t.take(i as int + 1), n) by {
                if n == d.name@ {
                    assert(entry_spans(t.take(i as int + 1), n) == entry_spans(
                        t.take(i as int),
                        n,
                    ).push(d.span));
                    assert(spec_lookup(table_model(old(list)@), n) + entry_spans(
                        t.take(i as int),
                        n,
                    ).push(d.span) =~= (spec_lookup(table_model(old(list)@), n) + entry_spans(
                        t.take(i as int),
                        n,
                    )).push(d.span));
                } else {
                    assert(entry_spans(t.take(i as int + 1), n) == entry_spans(
                        t.take(i as int),
                        n,
                    ));
                }
            }
        }
        i = i + 1;
    }
}

/// Copy an ordered span list.
fn copy_spans(spans: &Vec<Span>) -> (r: Vec<Span>)
    ensures
        r@ == spans@,
{
    let mut r: Vec<Span> = Vec::new();
    let mut k: usize = 0;
    loop
        invariant
            k <= spans@.len(),
            r@ == spans@.take(k as int),
        decreases spans@.len() - k,
    {
        if k == spans.len() {
            proof {
                assert(spans@.take(k as int) =~= spans@);
            }
            return r;
        }
        r.push(spans[k]);
        proof {
            assert(spans@.take(k as int + 1) =~= spans@.take(k as int).push(spans@[k as int]));
        }
        k = k + 1;
    }
}

/// Look one name up in one kind's table.
fn lookup_spans(list: &Vec<NamedSpans>, name: &str) -> (r: Vec<Span>)
    ensures
        r@ == spec_lookup(table_model(list@), name@),
{
    let mut j: usize = 0;
    proof {
        assert(table_model(list@).skip(0) =~= table_model(list@));
    }
    loop
        invariant
            j <= list@.len(),
            spec_lookup(table_model(list@), name@) == spec_lookup(
                table_model(list@).skip(j as int),
                name@,
            ),
        decreases list@.len() - j,
    {
        let ghost table = table_model(list@);
        if j == list.len() {
            proof {
                assert(table.skip(j as int) =~= Seq::<NamedSpansModel>::empty());
            }
            return Vec::new();
        }
        proof {
            assert(table.skip(j as int)[0] == table[j as int]);
        }
        let found = string_eq_str(&list[j].name, name);
        if found {
            return copy_spans(&list[j].spans);
        }
        proof {
            assert(table.skip(j as int).drop_first() =~= table.skip(j as int + 1));
        }
        j = j + 1;
    }
}

impl Findings {
    /// The aggregate with nothing recorded.
    pub fn new() -> (r: Findings)
        ensures
            r@ == FindingsModel::empty(),
    {
        let r = Findings { allow: Vec::new(), warn: Vec::new(), deny: Vec::new() };
        proof {
            assert(r@ =~= FindingsModel::empty());
        }
        r
    }

    /// Merge one record into the aggregate: for every kind and name, the
    /// record's spans for that name are appended, in the record's own order;
    /// every other entry is untouched, and the empty record changes nothing.
    pub fn merge(&mut self, record: &AWD)
        ensures
            forall|kind: DirectiveKind, n: Seq<char>|
                final(self)@.entries_for(kind, n) == old(self)@.entries_for(kind, n)
                    + entry_spans(record@.of_kind(kind), n),
            record@.is_empty() ==> final(self)@ == old(self)@,
    {
        merge_entries(&mut self.allow, &record.allow);
        merge_entries(&mut self.warn, &record.warn);
        merge_entries(&mut self.deny, &record.deny);
        proof {
            if record@.is_empty() {
                assert(final(self)@ =~= old(self)@);
            }
            assert forall|kind: DirectiveKind, n: Seq<char>|
                final(self)@.entries_for(kind, n) == old(self)@.entries_for(kind, n)
                    + entry_spans(record@.of_kind(kind), n) by {
                match kind {
                    DirectiveKind::Allow => {},
                    DirectiveKind::Warn => {},
                    DirectiveKind::Deny => {},
                }
            }
        }
    }

    /// The ordered spans recorded for one name under one kind.
    pub fn entries_for(&self, kind: DirectiveKind, name: &str) -> (r: Vec<Span>)
        ensures
            r@ == self@.entries_for(kind, name@),
    {
        match kind {
            DirectiveKind::Allow => lookup_spans(&self.allow, name),
            DirectiveKind::Warn => lookup_spans(&self.warn, name),
            DirectiveKind::Deny => lookup_spans(&self.deny, name),
        }
    }
}

impl Default for Findings {
    /// The aggregate with nothing recorded.
    fn default() -> (r: Findings)
        ensures
            r@ == FindingsModel::empty(),
    {
        Findings::new()
    }
}

/// Law: merging the empty record contributes nothing to any query, so it
/// leaves every aggregator state unchanged.
pub proof fn lemma_merge_empty_record_identity(f: FindingsModel, kind: DirectiveKind, n: Seq<char>)
    ensures
        f.entries_for(kind, n) + entry_spans(RecordModel::empty().of_kind(kind), n)
            == f.entries_for(kind, n),
{
    assert(entry_spans(RecordModel::empty().of_kind(kind), n) =~= Seq::<Span>::empty());
    assert(f.entries_for(kind, n) + Seq::<Span>::empty() =~= f.entries_for(kind, n));
}

/// Law: order preservation. The spans a name receives from concatenated
/// records are the left operand's followed by the right operand's, so
/// repeated directives of one kind land in the aggregator in the order they
/// were encountered.
pub proof fn lemma_entry_spans_concat(a: Seq<DirEntry>, b: Seq<DirEntry>, n: Seq<char>)
    ensures
        entry_spans(a + b, n) == entry_spans(a, n) + entry_spans(b, n),
    decreases b.len(),
{
    if b.len() == 0 {
        assert(a + b =~= a);
        assert(entry_spans(a, n) + entry_spans(b, n) =~= entry_spans(a, n));
    } else {
        lemma_entry_spans_concat(a, b.drop_last(), n);
        assert((a + b).drop_last() =~= a + b.drop_last());
        assert((a + b).last() == b.last());
        if b.last().name == n {
            assert(entry_spans(a, n) + entry_spans(b, n) =~= (entry_spans(a, n) + entry_spans(
                b.drop_last(),
                n,
            )).push(b.last().span));
        }
    }
}

} // verus!
