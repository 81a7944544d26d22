//! The field shorthand check: an entry `field: field` of a record literal or
//! record pattern is reported, with a fix that leaves `field` in its place.
use vstd::prelude::*;

use crate::diagnostic::{Diagnostic, FileId, Fix, Severity, SourceFileEdit};
use crate::syntax::{
    field_list_entries, fields_wf, RecordExpr, RecordField, RecordFieldList, RecordPat, SyntaxNode,
};
use crate::text_edit::{with_indel, IndelModel, TextEdit, TextRange};

verus! {

/// The two constructs whose field lists are checked.
#[derive(Clone, Copy, Debug, PartialEq, Eq, Structural)]
pub enum ConstructKind {
    /// A record literal: `A { a: a }`.
    Initialization,
    /// A record pattern: `let A { a: a } = x;`.
    Destructuring,
}

pub open spec fn message_of(kind: ConstructKind) -> Seq<char> {
    match kind {
        ConstructKind::Initialization => "Shorthand struct initialization"@,
        ConstructKind::Destructuring => "Shorthand struct pattern"@,
    }
}

pub open spec fn label_of(kind: ConstructKind) -> Seq<char> {
    match kind {
        ConstructKind::Initialization => "Use struct shorthand initialization"@,
        ConstructKind::Destructuring => "Use struct field shorthand"@,
    }
}

/// An entry that has both halves, a name (not a tuple index) as designator,
/// and a payload whose text is exactly that name.
pub open spec fn is_redundant(f: RecordField) -> bool {
    match (f.name_ref, f.value) {
        (Some(n), Some(v)) => !n.is_tuple_index && n.text@ == v.text@,
        _ => false,
    }
}

/// The designator's text of an entry that has one.
pub open spec fn name_text(f: RecordField) -> Seq<char> {
    match f.name_ref {
        Some(n) => n.text@,
        None => Seq::empty(),
    }
}

/// The edit that turns an entry into its designator alone: delete the entry,
/// insert the designator where the entry began.
pub open spec fn shorthand_edit(f: RecordField) -> Seq<IndelModel> {
    with_indel(
        with_indel(Seq::empty(), (Seq::empty(), f.range)),
        (name_text(f), TextRange { start: f.range.start, end: f.range.start }),
    )
}

/// `d` is the diagnostic, with its fix, for the redundant entry `f`.
pub open spec fn is_shorthand_diagnostic(
    d: Diagnostic,
    kind: ConstructKind,
    file_id: FileId,
    f: RecordField,
) -> bool {
    &&& d.severity == Severity::Hint
    &&& d.range == f.range
    &&& d.message@ == message_of(kind)
    &&& d.fix matches Some(fix) && {
        &&& fix.label@ == label_of(kind)
        &&& fix.fix_trigger_range == f.range
        &&& fix.source_change.file_id == file_id
        &&& fix.source_change.edit@ == shorthand_edit(f)
        &&& fix.source_change.edit.wf()
    }
}

/// The redundant entries of `fields`, in source order.
pub open spec fn redundant_fields(fields: Seq<RecordField>) -> Seq<RecordField>
    decreases fields.len(),
{
    if fields.len() == 0 {
        Seq::empty()
    } else if is_redundant(fields.last()) {
        redundant_fields(fields.drop_last()).push(fields.last())
    } else {
        redundant_fields(fields.drop_last())
    }
}

/// `ds` holds exactly one diagnostic per redundant entry of `fields`, in order.
pub open spec fn reports(
    ds: Seq<Diagnostic>,
    kind: ConstructKind,
    file_id: FileId,
    fields: Seq<RecordField>,
) -> bool {
    let r = redundant_fields(fields);
    &&& ds.len() == r.len()
    &&& forall|k: int| 0 <= k < ds.len() ==> is_shorthand_diagnostic(#[trigger] ds[k], kind, file_id, r[k])
}

/// The kind of construct that a node is checked as, if any.
pub open spec fn node_kind(node: SyntaxNode) -> Option<ConstructKind> {
    match node {
        SyntaxNode::RecordExpr(_) => Some(ConstructKind::Initialization),
        SyntaxNode::RecordPat(_) => Some(ConstructKind::Destructuring),
        SyntaxNode::Other(_) => None,
    }
}

/// The field entries that a node is checked for: none for other kinds of node
/// and for a construct without a field list.
pub open spec fn node_fields(node: SyntaxNode) -> Seq<RecordField> {
    match node {
        SyntaxNode::RecordExpr(e) => field_list_entries(e.field_list),
        SyntaxNode::RecordPat(p) => field_list_entries(p.field_list),
        SyntaxNode::Other(_) => Seq::empty(),
    }
}

/// `acc` went from `before` to `before` followed by the diagnostics for
/// `fields`.
pub open spec fn appended(
    before: Seq<Diagnostic>,
    after: Seq<Diagnostic>,
    kind: ConstructKind,
    file_id: FileId,
    fields: Seq<RecordField>,
) -> bool {
    &&& after.len() >= before.len()
    &&& after.take(before.len() as int) == before
    &&& reports(after.skip(before.len() as int), kind, file_id, fields)
}

/// Checks a node: record literals and record patterns get their field lists
/// checked, every other node is left alone.
pub fn check(acc: &mut Vec<Diagnostic>, file_id: FileId, node: &SyntaxNode)
    requires
        node.wf(),
    ensures
        node_kind(*node) matches Some(kind) ==> appended(old(acc)@, final(acc)@, kind, file_id, node_fields(*node)),
        node_kind(*node) is None ==> final(acc)@ == old(acc)@,
{
    match node {
        SyntaxNode::RecordExpr(it) => check_expr_field_shorthand(acc, file_id, it),
        SyntaxNode::RecordPat(it) => check_pat_field_shorthand(acc, file_id, it),
        SyntaxNode::Other(_) => {},
    }
}

/// Reports each `a: a` entry of a record literal.
pub fn check_expr_field_shorthand(acc: &mut Vec<Diagnostic>, file_id: FileId, record_expr: &RecordExpr)
    requires
        record_expr.wf(),
    ensures
        appended(
            old(acc)@,
            final(acc)@,
            ConstructKind::Initialization,
            file_id,
            field_list_entries(record_expr.field_list),
        ),
{
    match record_expr.record_expr_field_list() {
        Some(list) => check_field_list(acc, file_id, ConstructKind::Initialization, list),
        None => {
            assert(acc@.skip(acc@.len() as int) =~= Seq::<Diagnostic>::empty());
            assert(acc@.take(acc@.len() as int) =~= acc@);
        },
    }
}

/// Reports each `a: a` entry of a record pattern.
pub fn check_pat_field_shorthand(acc: &mut Vec<Diagnostic>, file_id: FileId, record_pat: &RecordPat)
    requires
        record_pat.wf(),
    ensures
        appended(
            old(acc)@,
            final(acc)@,
            ConstructKind::Destructuring,
            file_id,
            field_list_entries(record_pat.field_list),
        ),
{
    match record_pat.record_pat_field_list() {
        Some(list) => check_field_list(acc, file_id, ConstructKind::Destructuring, list),
        None => {
            assert(acc@.skip(acc@.len() as int) =~= Seq::<Diagnostic>::empty());
            assert(acc@.take(acc@.len() as int) =~= acc@);
        },
    }
}

/// The message of the diagnostic for `kind`.
fn message(kind: ConstructKind) -> (r: String)
    ensures
        r@ == message_of(kind),
{
    match kind {
        ConstructKind::Initialization => String::from_str("Shorthand struct initialization"),
        ConstructKind::Destructuring => String::from_str("Shorthand struct pattern"),
    }
}

/// The label of the fix for `kind`.
fn label(kind: ConstructKind) -> (r: &'static str)
    ensures
        r@ == label_of(kind),
{
    match kind {
        ConstructKind::Initialization => "Use struct shorthand initialization",
        ConstructKind::Destructuring => "Use struct field shorthand",
    }
}

/// The diagnostic, with its fix, for a redundant entry.
fn shorthand_diagnostic(kind: ConstructKind, file_id: FileId, field: &RecordField) -> (r: Diagnostic)
    requires
        is_redundant(*field),
        field.range.wf(),
    ensures
        is_shorthand_diagnostic(r, kind, file_id, *field),
{
    let field_name = match &field.name_ref {
        Some(n) => n.text.clone(),
        None => String::new(),
    };
    let mut edit_builder = TextEdit::builder();
    edit_builder.delete(field.range);
    edit_builder.insert(field.range.start(), field_name);
    let edit = edit_builder.finish();
    let field_range = field.range;
    Diagnostic::hint(field_range, message(kind)).with_fix(
        Some(Fix::new(label(kind), SourceFileEdit { file_id, edit }, field_range)),
    )
}

/// Checks each entry of a field list, in source order.
pub fn check_field_list(
    acc: &mut Vec<Diagnostic>,
    file_id: FileId,
    kind: ConstructKind,
    list: &RecordFieldList,
)
    requires
        list.wf(),
    ensures
        appended(old(acc)@, final(acc)@, kind, file_id, list.fields@),
{
    let ghost before = acc@;
    let ghost fields = list.fields@;
    let mut i: usize = 0;
    assert(fields.take(0) =~= Seq::<RecordField>::empty());
    assert(acc@.skip(before.len() as int) =~= Seq::<Diagnostic>::empty());
    assert(acc@.take(before.len() as int) =~= before);
    while i < list.fields.len()
        invariant
            fields == list.fields@,
            fields_wf(fields),
            i <= fields.len(),
            appended(before, acc@, kind, file_id, fields.take(i as int)),
        decreases fields.len() - i,
    {
        let field = &list.fields[i];
        let ghost prev = acc@;
        assert(fields.take(i + 1).drop_last() =~= fields.take(i as int));
        assert(fields.take(i + 1).last() == fields[i as int]);
        assert(field.range.wf());
        let redundant = match (&field.name_ref, &field.value) {
            (Some(name_ref), Some(value)) => name_ref.text == value.text && !name_ref.is_tuple_field(),
            _ => false,
        };
        if redundant {
            let d = shorthand_diagnostic(kind, file_id, field);
            acc.push(d);
            assert(acc@.skip(before.len() as int) =~= prev.skip(before.len() as int).push(d));
            assert(acc@.take(before.len() as int) =~= prev.take(before.len() as int));
        }
        i = i + 1;
    }
    assert(fields.take(fields.len() as int) =~= fields);
}

} // verus!
