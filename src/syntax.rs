//! The parts of a parsed syntax tree that the field shorthand check reads.
//!
//! A tree is built elsewhere and never changed here. Texts are verbatim token
//! texts, without surrounding trivia.
use vstd::prelude::*;

use crate::text_edit::TextRange;

verus! {

/// The designator of a field: a name, or a numeric tuple index such as `0`.
#[derive(Clone, Debug)]
pub struct NameRef {
    pub text: String,
    pub range: TextRange,
    pub is_tuple_index: bool,
}

impl NameRef {
    /// Whether the designator is a numeric tuple index rather than a name.
    pub fn is_tuple_field(&self) -> (r: bool)
        ensures
            r == self.is_tuple_index,
    {
        self.is_tuple_index
    }
}

/// An expression or a pattern, by its text.
#[derive(Clone, Debug)]
pub struct Payload {
    pub text: String,
    pub range: TextRange,
}

/// One entry of a field list: `name: value` in a literal, `name: pattern` in a
/// pattern. Under error recovery either half may be missing; a shorthand entry
/// (`name`) has no designator and its payload is the name itself.
#[derive(Clone, Debug)]
pub struct RecordField {
    pub name_ref: Option<NameRef>,
    pub value: Option<Payload>,
    pub range: TextRange,
}

/// The braces of a record literal or pattern and the entries between them.
#[derive(Clone, Debug)]
pub struct RecordFieldList {
    pub fields: Vec<RecordField>,
}

/// Entries have well-formed ranges, in source order, not overlapping.
pub open spec fn fields_wf(fields: Seq<RecordField>) -> bool {
    &&& forall|i: int| 0 <= i < fields.len() ==> (#[trigger] fields[i]).range.wf()
    &&& forall|i: int, j: int|
        0 <= i < j < fields.len() ==> (#[trigger] fields[i]).range.end <= (#[trigger] fields[j]).range.start
}

impl RecordFieldList {
    pub open spec fn wf(&self) -> bool {
        fields_wf(self.fields@)
    }
}

/// A record literal such as `A { a: 1 }`; a unit-like literal has no field list.
#[derive(Clone, Debug)]
pub struct RecordExpr {
    pub field_list: Option<RecordFieldList>,
    pub range: TextRange,
}

/// A record pattern such as `A { a: x }`; a unit-like pattern has no field list.
#[derive(Clone, Debug)]
pub struct RecordPat {
    pub field_list: Option<RecordFieldList>,
    pub range: TextRange,
}

/// Whether an optional field list is well formed.
pub open spec fn field_list_wf(l: Option<RecordFieldList>) -> bool {
    match l {
        Some(l) => l.wf(),
        None => true,
    }
}

/// The entries of an optional field list, none when it is absent.
pub open spec fn field_list_entries(l: Option<RecordFieldList>) -> Seq<RecordField> {
    match l {
        Some(l) => l.fields@,
        None => Seq::empty(),
    }
}

impl RecordExpr {
    pub open spec fn wf(&self) -> bool {
        field_list_wf(self.field_list)
    }

    pub fn record_expr_field_list(&self) -> (r: Option<&RecordFieldList>)
        ensures
            r == match self.field_list {
                Some(l) => Some(&l),
                None => None::<&RecordFieldList>,
            },
    {
        match &self.field_list {
            Some(l) => Some(l),
            None => None,
        }
    }
}

impl RecordPat {
    pub open spec fn wf(&self) -> bool {
        field_list_wf(self.field_list)
    }

    pub fn record_pat_field_list(&self) -> (r: Option<&RecordFieldList>)
        ensures
            r == match self.field_list {
                Some(l) => Some(&l),
                None => None::<&RecordFieldList>,
            },
    {
        match &self.field_list {
            Some(l) => Some(l),
            None => None,
        }
    }
}

/// A syntax node, by the kinds of construct that the check tells apart.
#[derive(Clone, Debug)]
pub enum SyntaxNode {
    RecordExpr(RecordExpr),
    RecordPat(RecordPat),
    Other(TextRange),
}

impl SyntaxNode {
    pub open spec fn wf(&self) -> bool {
        match self {
            SyntaxNode::RecordExpr(e) => e.wf(),
            SyntaxNode::RecordPat(p) => p.wf(),
            SyntaxNode::Other(_) => true,
        }
    }
}

} // verus!
