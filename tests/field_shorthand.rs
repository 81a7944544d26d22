use field_shorthand::detect::{check, check_field_list, ConstructKind};
use field_shorthand::diagnostic::{Diagnostic, FileId, Severity};
use field_shorthand::syntax::{
    NameRef, Payload, RecordExpr, RecordField, RecordFieldList, RecordPat, SyntaxNode,
};
use field_shorthand::text_edit::{TextEdit, TextRange};

const CURSOR: &str = "<|>";

fn range(start: usize, end: usize) -> TextRange {
    TextRange::new(start as u32, end as u32)
}

/// Builds the field entry written at `text[start..end]`.
fn field_entry(text: &str, start: usize, end: usize) -> RecordField {
    let part = &text[start..end];
    let lead = part.len() - part.trim_start().len();
    let (s, e) = (start + lead, start + part.trim_end().len());
    let written = &text[s..e];
    match written.find(':') {
        Some(colon) => {
            let name = written[..colon].trim_end();
            let rest = &written[colon + 1..];
            let value = rest.trim();
            let value_start = s + colon + 1 + (rest.len() - rest.trim_start().len());
            RecordField {
                name_ref: Some(NameRef {
                    text: name.to_string(),
                    range: range(s, s + name.len()),
                    is_tuple_index: name.chars().all(|c| c.is_ascii_digit()),
                }),
                value: if value.is_empty() {
                    None
                } else {
                    Some(Payload {
                        text: value.to_string(),
                        range: range(value_start, value_start + value.len()),
                    })
                },
                range: range(s, e),
            }
        }
        None => RecordField {
            name_ref: None,
            value: Some(Payload { text: written.to_string(), range: range(s, e) }),
            range: range(s, e),
        },
    }
}

/// Stands in for the parser on these fixtures: the record literal or pattern
/// is the last `A { .. }` of the text, its entries are separated by commas.
fn record_node(text: &str, pattern: bool) -> SyntaxNode {
    let open = text.rfind("A {").unwrap() + 2;
    let close = open + text[open..].find('}').unwrap();
    let mut fields = Vec::new();
    let mut start = open + 1;
    for (i, c) in text[open + 1..close].char_indices() {
        if c == ',' {
            fields.push(field_entry(text, start, open + 1 + i));
            start = open + 1 + i + 1;
        }
    }
    if !text[start..close].trim().is_empty() {
        fields.push(field_entry(text, start, close));
    }
    let whole = range(open - 2, close + 1);
    let field_list = Some(RecordFieldList { fields });
    if pattern {
        SyntaxNode::RecordPat(RecordPat { field_list, range: whole })
    } else {
        SyntaxNode::RecordExpr(RecordExpr { field_list, range: whole })
    }
}

fn diagnostics(text: &str, pattern: bool) -> Vec<Diagnostic> {
    let mut acc = Vec::new();
    check(&mut acc, FileId(0), &record_node(text, pattern));
    acc
}

fn check_no_diagnostics(text: &str, pattern: bool) {
    let ds = diagnostics(text, pattern);
    assert!(ds.is_empty(), "unexpected diagnostics: {:?}", ds);
}

/// Applies the fix of the last diagnostic, which must cover the cursor.
fn check_fix(before: &str, after: &str, pattern: bool) {
    let offset = before.find(CURSOR).unwrap();
    let text = before.replace(CURSOR, "");
    let mut ds = diagnostics(&text, pattern);
    let diagnostic = ds.pop().unwrap();
    let fix = diagnostic.fix.unwrap();
    let actual = fix.source_change.edit.apply(&text.to_string());
    assert_eq!(actual, after);
    let trigger = fix.fix_trigger_range;
    assert!(trigger.start() as usize <= offset && offset <= trigger.end() as usize);
}

#[test]
fn test_check_expr_field_shorthand() {
    check_no_diagnostics(
        r#"
struct A { a: &'static str }
fn main() { A { a: "hello" } }
"#,
        false,
    );
    check_no_diagnostics(
        r#"
struct A(usize);
fn main() { A { 0: 0 } }
"#,
        false,
    );

    check_fix(
        r#"
struct A { a: &'static str }
fn main() {
    let a = "haha";
    A { a<|>: a }
}
"#,
        r#"
struct A { a: &'static str }
fn main() {
    let a = "haha";
    A { a }
}
"#,
        false,
    );

    check_fix(
        r#"
struct A { a: &'static str, b: &'static str }
fn main() {
    let a = "haha";
    let b = "bb";
    A { a<|>: a, b }
}
"#,
        r#"
struct A { a: &'static str, b: &'static str }
fn main() {
    let a = "haha";
    let b = "bb";
    A { a, b }
}
"#,
        false,
    );
}

#[test]
fn test_check_pat_field_shorthand() {
    check_no_diagnostics(
        r#"
struct A { a: &'static str }
fn f(a: A) { let A { a: hello } = a; }
"#,
        true,
    );
    check_no_diagnostics(
        r#"
struct A(usize);
fn f(a: A) { let A { 0: 0 } = a; }
"#,
        true,
    );

    check_fix(
        r#"
struct A { a: &'static str }
fn f(a: A) {
    let A { a<|>: a } = a;
}
"#,
        r#"
struct A { a: &'static str }
fn f(a: A) {
    let A { a } = a;
}
"#,
        true,
    );

    check_fix(
        r#"
struct A { a: &'static str, b: &'static str }
fn f(a: A) {
    let A { a<|>: a, b } = a;
}
"#,
        r#"
struct A { a: &'static str, b: &'static str }
fn f(a: A) {
    let A { a, b } = a;
}
"#,
        true,
    );
}

#[test]
fn initialization_reports_one_hint_over_the_entry() {
    let text = "fn main() { let a = 1; A { a: a } }";
    let ds = diagnostics(text, false);
    assert_eq!(ds.len(), 1);
    let d = &ds[0];
    assert_eq!(d.severity, Severity::Hint);
    let start = text.find("a: a").unwrap();
    assert_eq!(d.range, range(start, start + 4));
    assert_eq!(d.message, "Shorthand struct initialization");
    let fix = d.fix.as_ref().unwrap();
    assert_eq!(fix.label, "Use struct shorthand initialization");
    assert_eq!(fix.fix_trigger_range, d.range);
    assert_eq!(fix.source_change.file_id, FileId(0));
    assert_eq!(fix.source_change.edit.len(), 2);
}

#[test]
fn fix_result_is_not_reported_again() {
    let text = "fn main() { let a = 1; A { a: a } }";
    let ds = diagnostics(text, false);
    let fixed = ds[0].fix.as_ref().unwrap().source_change.edit.apply(&text.to_string());
    assert_eq!(fixed, "fn main() { let a = 1; A { a } }");
    assert!(diagnostics(&fixed, false).is_empty());
}

#[test]
fn destructuring_reports_pattern_message() {
    let text = "fn f(x: A) { let A { a: a } = x; }";
    let ds = diagnostics(text, true);
    assert_eq!(ds.len(), 1);
    assert_eq!(ds[0].severity, Severity::Hint);
    assert_eq!(ds[0].message, "Shorthand struct pattern");
    let fix = ds[0].fix.as_ref().unwrap();
    assert_eq!(fix.label, "Use struct field shorthand");
    let fixed = fix.source_change.edit.apply(&text.to_string());
    assert_eq!(fixed, "fn f(x: A) { let A { a } = x; }");
}

#[test]
fn only_redundant_entry_of_several_is_reported() {
    let text = "fn main() { A { a: a, b } }";
    let ds = diagnostics(text, false);
    assert_eq!(ds.len(), 1);
    let start = text.find("a: a").unwrap();
    assert_eq!(ds[0].range, range(start, start + 4));
    let fixed = ds[0].fix.as_ref().unwrap().source_change.edit.apply(&text.to_string());
    assert_eq!(fixed, "fn main() { A { a, b } }");
}

#[test]
fn entries_are_reported_in_source_order() {
    let text = "fn main() { A { b: b, c: d, a: a } }";
    let ds = diagnostics(text, false);
    assert_eq!(ds.len(), 2);
    let b = text.find("b: b").unwrap();
    let a = text.find("a: a").unwrap();
    assert_eq!(ds[0].range, range(b, b + 4));
    assert_eq!(ds[1].range, range(a, a + 4));
}

#[test]
fn entry_without_value_is_skipped() {
    let text = "fn main() { A { a: a, b: } }";
    let node = record_node(text, false);
    if let SyntaxNode::RecordExpr(e) = &node {
        let fields = &e.field_list.as_ref().unwrap().fields;
        assert_eq!(fields.len(), 2);
        assert!(fields[1].value.is_none());
    } else {
        panic!("expected a record literal");
    }
    let ds = diagnostics(text, false);
    assert_eq!(ds.len(), 1);
    let start = text.find("a: a").unwrap();
    assert_eq!(ds[0].range, range(start, start + 4));
}

#[test]
fn entry_without_designator_is_skipped() {
    let mut acc = Vec::new();
    let list = RecordFieldList {
        fields: vec![RecordField {
            name_ref: None,
            value: Some(Payload { text: "a".to_string(), range: range(4, 5) }),
            range: range(2, 5),
        }],
    };
    check_field_list(&mut acc, FileId(3), ConstructKind::Initialization, &list);
    assert!(acc.is_empty());
}

#[test]
fn equal_tuple_index_texts_are_not_reported() {
    let mut acc = Vec::new();
    let list = RecordFieldList {
        fields: vec![RecordField {
            name_ref: Some(NameRef { text: "1".to_string(), range: range(0, 1), is_tuple_index: true }),
            value: Some(Payload { text: "1".to_string(), range: range(3, 4) }),
            range: range(0, 4),
        }],
    };
    check_field_list(&mut acc, FileId(3), ConstructKind::Destructuring, &list);
    assert!(acc.is_empty());
}

#[test]
fn construct_without_field_list_is_silent() {
    let mut acc = Vec::new();
    let node = SyntaxNode::RecordExpr(RecordExpr { field_list: None, range: range(0, 1) });
    check(&mut acc, FileId(1), &node);
    assert!(acc.is_empty());
    let node = SyntaxNode::RecordPat(RecordPat { field_list: None, range: range(0, 1) });
    check(&mut acc, FileId(1), &node);
    assert!(acc.is_empty());
}

#[test]
fn other_nodes_are_ignored_and_earlier_diagnostics_kept() {
    let text = "fn main() { A { a: a } }";
    let mut acc = Vec::new();
    check(&mut acc, FileId(7), &record_node(text, false));
    assert_eq!(acc.len(), 1);
    check(&mut acc, FileId(7), &SyntaxNode::Other(range(0, 2)));
    assert_eq!(acc.len(), 1);
    check(&mut acc, FileId(7), &record_node(text, true));
    assert_eq!(acc.len(), 2);
    assert_eq!(acc[0].message, "Shorthand struct initialization");
    assert_eq!(acc[1].message, "Shorthand struct pattern");
    assert_eq!(acc[1].fix.as_ref().unwrap().source_change.file_id, FileId(7));
}

#[test]
fn builder_keeps_operations_sorted() {
    let mut b = TextEdit::builder();
    b.delete(range(4, 8));
    b.insert(4, "xy".to_string());
    b.insert(10, "!".to_string());
    b.delete(range(0, 2));
    let edit = b.finish();
    assert_eq!(edit.len(), 4);
    assert_eq!(edit.indel(0).delete, range(0, 2));
    assert_eq!(edit.indel(1).insert, "xy");
    assert_eq!(edit.indel(1).delete, range(4, 4));
    assert_eq!(edit.indel(2).delete, range(4, 8));
    assert_eq!(edit.indel(3).insert, "!");
    assert_eq!(edit.apply(&"abcdefghijkl".to_string()), "cdxyij!kl");
}

#[test]
fn empty_edit_keeps_text() {
    let edit = TextEdit::builder().finish();
    assert!(edit.is_empty());
    assert_eq!(edit.apply(&"héllo".to_string()), "héllo");
}

#[test]
fn offsets_count_characters() {
    let mut b = TextEdit::builder();
    b.delete(range(1, 2));
    b.insert(1, "e".to_string());
    assert_eq!(b.finish().apply(&"héllo".to_string()), "hello");
}

#[test]
fn text_range_accessors() {
    let r = TextRange::new(3, 9);
    assert_eq!((r.start(), r.end()), (3, 9));
    assert_eq!(TextRange::empty(5), TextRange::new(5, 5));
    let d = Diagnostic::hint(r, "m".to_string());
    assert!(d.fix.is_none());
    assert_eq!(d.with_fix(None).range, r);
}
