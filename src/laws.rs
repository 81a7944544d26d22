//! What holds of the field shorthand check over all inputs.
use vstd::prelude::*;

use crate::diagnostic::{Diagnostic, FileId};
use crate::detect::{
    is_redundant, name_text, redundant_fields, reports, shorthand_edit, ConstructKind,
};
use crate::syntax::{fields_wf, RecordField};
use crate::text_edit::{apply_from, apply_indels, indels_wf, sorted_pos, IndelModel, TextRange};

verus! {

/// The redundant entries of two lists one after the other are those of the
/// first followed by those of the second.
pub proof fn lemma_redundant_fields_concat(a: Seq<RecordField>, b: Seq<RecordField>)
    ensures
        redundant_fields(a + b) == redundant_fields(a) + redundant_fields(b),
    decreases b.len(),
{
    if b.len() == 0 {
        assert(a + b =~= a);
        assert(redundant_fields(b) =~= Seq::<RecordField>::empty());
        assert(redundant_fields(a) + redundant_fields(b) =~= redundant_fields(a));
    } else {
        let b0 = b.drop_last();
        assert((a + b).drop_last() =~= a + b0);
        assert((a + b).last() == b.last());
        lemma_redundant_fields_concat(a, b0);
        if is_redundant(b.last()) {
            assert(redundant_fields(a) + redundant_fields(b0).push(b.last()) =~= (redundant_fields(a)
                + redundant_fields(b0)).push(b.last()));
        }
    }
}

/// Entries are checked independently: the diagnostics for a list split into
/// two parts are those of the first part followed by those of the second.
pub proof fn lemma_reports_concat(
    ds1: Seq<Diagnostic>,
    ds2: Seq<Diagnostic>,
    kind: ConstructKind,
    file_id: FileId,
    a: Seq<RecordField>,
    b: Seq<RecordField>,
)
    requires
        reports(ds1, kind, file_id, a),
        reports(ds2, kind, file_id, b),
    ensures
        reports(ds1 + ds2, kind, file_id, a + b),
{
    lemma_redundant_fields_concat(a, b);
    let r = redundant_fields(a + b);
    let ds = ds1 + ds2;
    assert forall|k: int| 0 <= k < ds.len() implies crate::detect::is_shorthand_diagnostic(
        #[trigger] ds[k],
        kind,
        file_id,
        r[k],
    ) by {
        if k < ds1.len() {
            assert(ds[k] == ds1[k]);
            assert(r[k] == redundant_fields(a)[k]);
        } else {
            assert(ds[k] == ds2[k - ds1.len()]);
            assert(r[k] == redundant_fields(b)[k - ds1.len()]);
        }
    }
}

/// An entry that is not redundant, wherever it is added to a list, leaves
/// the diagnostics of the list as they were.
proof fn lemma_insert_unreported(fields: Seq<RecordField>, i: int, f: RecordField)
    requires
        0 <= i <= fields.len(),
        !is_redundant(f),
    ensures
        redundant_fields(fields.insert(i, f)) == redundant_fields(fields),
{
    let pre = fields.take(i);
    let post = fields.skip(i);
    assert(fields.insert(i, f) =~= pre.push(f) + post);
    assert(fields =~= pre + post);
    assert(seq![f].drop_last() =~= Seq::<RecordField>::empty());
    assert(seq![f].last() == f);
    assert(redundant_fields(Seq::<RecordField>::empty()) =~= Seq::<RecordField>::empty());
    assert(redundant_fields(seq![f]) =~= Seq::<RecordField>::empty());
    assert(pre.push(f) =~= pre + seq![f]);
    lemma_redundant_fields_concat(pre, seq![f]);
    lemma_redundant_fields_concat(pre.push(f), post);
    lemma_redundant_fields_concat(pre, post);
    assert(redundant_fields(pre) + Seq::<RecordField>::empty() =~= redundant_fields(pre));
}

/// An entry whose designator text differs from its value text gets no
/// diagnostic: adding it anywhere to a list changes nothing that is reported.
pub proof fn lemma_differing_texts_not_reported(
    ds: Seq<Diagnostic>,
    kind: ConstructKind,
    file_id: FileId,
    fields: Seq<RecordField>,
    i: int,
    f: RecordField,
)
    requires
        0 <= i <= fields.len(),
        f.name_ref is Some,
        f.value is Some,
        f.name_ref.unwrap().text@ != f.value.unwrap().text@,
    ensures
        reports(ds, kind, file_id, fields.insert(i, f)) == reports(ds, kind, file_id, fields),
{
    lemma_insert_unreported(fields, i, f);
}

/// An entry whose designator is a tuple index (`0: 0`) gets no diagnostic,
/// even where its texts are equal.
pub proof fn lemma_tuple_index_not_reported(
    ds: Seq<Diagnostic>,
    kind: ConstructKind,
    file_id: FileId,
    fields: Seq<RecordField>,
    i: int,
    f: RecordField,
)
    requires
        0 <= i <= fields.len(),
        f.name_ref matches Some(n) && n.is_tuple_index,
    ensures
        reports(ds, kind, file_id, fields.insert(i, f)) == reports(ds, kind, file_id, fields),
{
    lemma_insert_unreported(fields, i, f);
}

/// An entry that lacks its designator or its value is skipped, and the other
/// entries of its list are reported as they would be without it.
pub proof fn lemma_incomplete_entry_skipped(
    ds: Seq<Diagnostic>,
    kind: ConstructKind,
    file_id: FileId,
    fields: Seq<RecordField>,
    i: int,
    f: RecordField,
)
    requires
        0 <= i <= fields.len(),
        f.name_ref is None || f.value is None,
    ensures
        reports(ds, kind, file_id, fields.insert(i, f)) == reports(ds, kind, file_id, fields),
{
    lemma_insert_unreported(fields, i, f);
}

/// The fix of a redundant entry replaces the entry's text by its designator
/// and leaves the text before and after it unchanged.
pub proof fn lemma_fix_yields_shorthand(text: Seq<char>, f: RecordField)
    requires
        is_redundant(f),
        f.range.wf(),
        f.range.end <= text.len(),
    ensures
        apply_indels(text, shorthand_edit(f)) == text.take(f.range.start as int) + name_text(f) + text.skip(
            f.range.end as int,
        ),
{
    let s = f.range.start as int;
    let e = f.range.end as int;
    let del = (Seq::<char>::empty(), f.range);
    let ins = (name_text(f), TextRange { start: f.range.start, end: f.range.start });
    let one = Seq::<(Seq<char>, TextRange)>::empty().insert(0, del);
    assert(one =~= seq![del]);
    assert(one.drop_last() =~= Seq::<(Seq<char>, TextRange)>::empty());
    let edit = shorthand_edit(f);
    assert(sorted_pos(one.drop_last(), ins.1) == 0);
    if s < e {
        assert(sorted_pos(one, ins.1) == 0);
        assert(edit =~= seq![ins, del]);
        assert(apply_from(text, edit, 2, e) == text.subrange(e, text.len() as int));
        assert(apply_from(text, edit, 1, s) == text.subrange(s, s) + Seq::<char>::empty() + text.subrange(
            e,
            text.len() as int,
        ));
    } else {
        assert(sorted_pos(one, ins.1) == 1);
        assert(edit =~= seq![del, ins]);
        assert(apply_from(text, edit, 2, s) == text.subrange(s, text.len() as int));
        assert(apply_from(text, edit, 1, s) == text.subrange(s, s) + name_text(f) + text.subrange(
            s,
            text.len() as int,
        ));
    }
    assert(apply_indels(text, edit) =~= text.take(s) + name_text(f) + text.skip(e));
}

/// After the fix, checking again reports nothing for that entry: a list
/// reports the redundant entry `f` in its place, and the same list with the
/// shorthand entry `g` (a payload and no separate designator) in place of `f`
/// reports only the other entries.
pub proof fn lemma_recheck_after_fix(
    pre: Seq<RecordField>,
    post: Seq<RecordField>,
    f: RecordField,
    g: RecordField,
)
    requires
        is_redundant(f),
        g.name_ref is None,
    ensures
        redundant_fields(pre.push(f) + post) == redundant_fields(pre).push(f) + redundant_fields(post),
        redundant_fields(pre.push(g) + post) == redundant_fields(pre) + redundant_fields(post),
{
    lemma_redundant_fields_concat(pre.push(f), post);
    assert(pre.push(f).drop_last() =~= pre);
    lemma_insert_unreported(pre + post, pre.len() as int, g);
    assert((pre + post).insert(pre.len() as int, g) =~= pre.push(g) + post);
    lemma_redundant_fields_concat(pre, post);
}

/// The fixes of the entries `fs`, one after the other, as one list of
/// operations.
pub open spec fn combined_edit(fs: Seq<RecordField>) -> Seq<IndelModel>
    decreases fs.len(),
{
    if fs.len() == 0 {
        Seq::empty()
    } else {
        combined_edit(fs.drop_last()) + shorthand_edit(fs.last())
    }
}

/// Every operation of an entry's fix lies within the entry's range.
pub proof fn lemma_fix_within_entry(f: RecordField)
    requires
        f.range.wf(),
    ensures
        indels_wf(shorthand_edit(f)),
        forall|k: int|
            0 <= k < shorthand_edit(f).len() ==> f.range.start <= (#[trigger] shorthand_edit(f)[k]).1.start
                && shorthand_edit(f)[k].1.end <= f.range.end,
{
    let del = (Seq::<char>::empty(), f.range);
    let ins = (name_text(f), TextRange { start: f.range.start, end: f.range.start });
    let one = Seq::<(Seq<char>, TextRange)>::empty().insert(0, del);
    assert(one =~= seq![del]);
    assert(one.drop_last() =~= Seq::<(Seq<char>, TextRange)>::empty());
    assert(sorted_pos(one.drop_last(), ins.1) == 0);
    if f.range.start < f.range.end {
        assert(sorted_pos(one, ins.1) == 0);
        assert(shorthand_edit(f) =~= seq![ins, del]);
    } else {
        assert(sorted_pos(one, ins.1) == 1);
        assert(shorthand_edit(f) =~= seq![del, ins]);
    }
}

proof fn lemma_combined_edit(fs: Seq<RecordField>)
    requires
        fields_wf(fs),
    ensures
        indels_wf(combined_edit(fs)),
        fs.len() > 0 ==> forall|k: int|
            0 <= k < combined_edit(fs).len() ==> (#[trigger] combined_edit(fs)[k]).1.end <= fs.last().range.end,
    decreases fs.len(),
{
    if fs.len() > 0 {
        let t = fs.drop_last();
        let f = fs.last();
        assert(fields_wf(t)) by {
            assert forall|i: int| 0 <= i < t.len() implies (#[trigger] t[i]).range.wf() by {
                assert(t[i] == fs[i]);
            }
            assert forall|i: int, j: int| 0 <= i < j < t.len() implies (#[trigger] t[i]).range.end <= (
            #[trigger] t[j]).range.start by {
                assert(t[i] == fs[i] && t[j] == fs[j]);
            }
        }
        assert(f.range.wf());
        lemma_combined_edit(t);
        lemma_fix_within_entry(f);
        let a = combined_edit(t);
        let b = shorthand_edit(f);
        let c = combined_edit(fs);
        assert(c == a + b);
        if t.len() > 0 {
            assert(t.last() == fs[fs.len() - 2]);
            assert(t.last().range.end <= f.range.start);
        }
        assert forall|i: int| 0 <= i < c.len() implies (#[trigger] c[i]).1.wf() by {
            if i < a.len() {
                assert(c[i] == a[i]);
            } else {
                assert(c[i] == b[i - a.len()]);
            }
        }
        assert forall|i: int, j: int| 0 <= i < j < c.len() implies (#[trigger] c[i]).1.end <= (
        #[trigger] c[j]).1.start by {
            if j < a.len() {
                assert(c[i] == a[i] && c[j] == a[j]);
            } else if i < a.len() {
                assert(c[i] == a[i] && c[j] == b[j - a.len()]);
            } else {
                assert(c[i] == b[i - a.len()] && c[j] == b[j - a.len()]);
            }
        }
        assert forall|k: int| 0 <= k < c.len() implies (#[trigger] c[k]).1.end <= f.range.end by {
            if k < a.len() {
                assert(c[k] == a[k]);
            } else {
                assert(c[k] == b[k - a.len()]);
            }
        }
    }
}

proof fn lemma_redundant_fields_wf(fs: Seq<RecordField>)
    requires
        fields_wf(fs),
    ensures
        fields_wf(redundant_fields(fs)),
        forall|k: int| 0 <= k < redundant_fields(fs).len() ==> fs.contains(#[trigger] redundant_fields(fs)[k]),
        fs.len() > 0 ==> forall|k: int|
            0 <= k < redundant_fields(fs).len() ==> (#[trigger] redundant_fields(fs)[k]).range.end
                <= fs.last().range.end,
    decreases fs.len(),
{
    if fs.len() > 0 {
        let t = fs.drop_last();
        let f = fs.last();
        assert(fields_wf(t)) by {
            assert forall|i: int| 0 <= i < t.len() implies (#[trigger] t[i]).range.wf() by {
                assert(t[i] == fs[i]);
            }
            assert forall|i: int, j: int| 0 <= i < j < t.len() implies (#[trigger] t[i]).range.end <= (
            #[trigger] t[j]).range.start by {
                assert(t[i] == fs[i] && t[j] == fs[j]);
            }
        }
        lemma_redundant_fields_wf(t);
        let r = redundant_fields(t);
        assert(f.range.wf());
        assert forall|k: int| 0 <= k < r.len() implies (#[trigger] r[k]).range.end <= f.range.start && fs.contains(
            r[k],
        ) by {
            let i = choose|i: int| 0 <= i < t.len() && t[i] == r[k];
            assert(fs[i] == t[i]);
            assert(fs[i].range.end <= fs[fs.len() - 1].range.start);
        }
        assert(fs.contains(f)) by {
            assert(fs[fs.len() - 1] == f);
        }
        if is_redundant(f) {
            let u = r.push(f);
            assert forall|i: int| 0 <= i < u.len() implies (#[trigger] u[i]).range.wf() by {
                if i < r.len() {
                    assert(u[i] == r[i]);
                }
            }
            assert forall|i: int, j: int| 0 <= i < j < u.len() implies (#[trigger] u[i]).range.end <= (
            #[trigger] u[j]).range.start by {
                assert(u[i] == r[i]);
                if j < r.len() {
                    assert(u[j] == r[j]);
                }
            }
            assert forall|k: int| 0 <= k < u.len() implies fs.contains(#[trigger] u[k]) && u[k].range.end
                <= f.range.end by {
                if k < r.len() {
                    assert(u[k] == r[k]);
                }
            }
        }
    }
}

/// The fixes of all entries reported for one well-formed field list can be
/// applied together: their operations, taken in order, form one edit whose
/// operations are sorted and do not overlap.
pub proof fn lemma_fixes_apply_together(fields: Seq<RecordField>)
    requires
        fields_wf(fields),
    ensures
        indels_wf(combined_edit(redundant_fields(fields))),
{
    lemma_redundant_fields_wf(fields);
    lemma_combined_edit(redundant_fields(fields));
}

} // verus!
