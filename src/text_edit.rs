//! Text ranges and edits over a source text.
//!
//! Offsets count the characters of the text. An edit is a list of
//! insert-and-delete operations whose ranges refer to the unedited text; the
//! list is kept sorted by position and its ranges never overlap.
use vstd::prelude::*;

verus! {

/// A half-open range `[start, end)` of character offsets.
#[derive(Clone, Copy, Debug, PartialEq, Eq, Structural)]
pub struct TextRange {
    pub start: u32,
    pub end: u32,
}

impl TextRange {
    pub open spec fn wf(self) -> bool {
        self.start <= self.end
    }

    pub fn new(start: u32, end: u32) -> (r: TextRange)
        requires
            start <= end,
        ensures
            r.start == start,
            r.end == end,
    {
        TextRange { start, end }
    }

    /// The empty range at `offset`.
    pub fn empty(offset: u32) -> (r: TextRange)
        ensures
            r.start == offset,
            r.end == offset,
    {
        TextRange { start: offset, end: offset }
    }

    pub fn start(&self) -> (r: u32)
        ensures
            r == self.start,
    {
        self.start
    }

    pub fn end(&self) -> (r: u32)
        ensures
            r == self.end,
    {
        self.end
    }
}

/// One atomic operation: delete `delete`, then put `insert` in its place.
#[derive(Clone, Debug)]
pub struct Indel {
    pub insert: String,
    pub delete: TextRange,
}

/// What an operation does, as plain values: the inserted text and the range
/// that it replaces.
pub type IndelModel = (Seq<char>, TextRange);

impl View for Indel {
    type V = IndelModel;

    open spec fn view(&self) -> IndelModel {
        (self.insert@, self.delete)
    }
}

impl Indel {
    pub fn insert(offset: u32, text: String) -> (r: Indel)
        ensures
            r@ == (text@, TextRange { start: offset, end: offset }),
    {
        Indel { insert: text, delete: TextRange::empty(offset) }
    }

    pub fn delete(range: TextRange) -> (r: Indel)
        ensures
            r@ == (Seq::<char>::empty(), range),
    {
        Indel { insert: String::new(), delete: range }
    }
}

/// Operations are well formed, and each ends at or before the start of every
/// later one.
pub open spec fn indels_wf(s: Seq<IndelModel>) -> bool {
    &&& forall|i: int| 0 <= i < s.len() ==> (#[trigger] s[i]).1.wf()
    &&& forall|i: int, j: int| 0 <= i < j < s.len() ==> (#[trigger] s[i]).1.end <= (#[trigger] s[j]).1.start
}

/// Two operations that may both stand in one edit, in either order.
pub open spec fn disjoint(a: TextRange, b: TextRange) -> bool {
    a.end <= b.start || b.end <= a.start
}

/// The order of operations in an edit: by start, then by end.
pub open spec fn range_le(a: TextRange, b: TextRange) -> bool {
    a.start < b.start || (a.start == b.start && a.end <= b.end)
}

/// The text from offset `prev` on, with the operations from index `i` on applied.
pub open spec fn apply_from(text: Seq<char>, s: Seq<IndelModel>, i: int, prev: int) -> Seq<char>
    decreases s.len() - i,
{
    if i >= s.len() || i < 0 {
        text.subrange(prev, text.len() as int)
    } else {
        text.subrange(prev, s[i].1.start as int) + s[i].0 + apply_from(text, s, i + 1, s[i].1.end as int)
    }
}

/// The text that results from applying all operations of `s` to `text`.
pub open spec fn apply_indels(text: Seq<char>, s: Seq<IndelModel>) -> Seq<char> {
    apply_from(text, s, 0, 0)
}

/// The largest offset that an operation of `s` reaches (zero for none).
pub open spec fn indels_end(s: Seq<IndelModel>) -> int {
    if s.len() == 0 {
        0
    } else {
        s.last().1.end as int
    }
}

/// A finished edit: sorted operations with disjoint ranges.
#[derive(Clone, Debug)]
pub struct TextEdit {
    indels: Vec<Indel>,
}

impl View for TextEdit {
    type V = Seq<IndelModel>;

    closed spec fn view(&self) -> Seq<IndelModel> {
        self.indels@.map_values(|d: Indel| d@)
    }
}

impl TextEdit {
    pub open spec fn wf(&self) -> bool {
        indels_wf(self@)
    }

    pub fn builder() -> (r: TextEditBuilder)
        ensures
            r@ == Seq::<IndelModel>::empty(),
    {
        TextEditBuilder::new()
    }

    pub fn len(&self) -> (r: usize)
        ensures
            r == self@.len(),
    {
        self.indels.len()
    }

    pub fn is_empty(&self) -> (r: bool)
        ensures
            r == (self@.len() == 0),
    {
        self.indels.len() == 0
    }

    /// The operation at index `i`.
    pub fn indel(&self, i: usize) -> (r: &Indel)
        requires
            i < self@.len(),
        ensures
            r@ == self@[i as int],
    {
        &self.indels[i]
    }

    /// Applies the edit to `text`, whose length must reach every operation.
    pub fn apply(&self, text: &String) -> (r: String)
        requires
            self.wf(),
            indels_end(self@) <= text@.len(),
        ensures
            r@ == apply_indels(text@, self@),
    {
        let ghost s = self@;
        let n = text.as_str().unicode_len();
        let mut buf = String::new();
        let mut prev: u32 = 0;
        let mut i: usize = 0;
        assert(indels_end(s) <= n);
        while i < self.indels.len()
            invariant
                s == self@,
                indels_wf(s),
                indels_end(s) <= n,
                n == text@.len(),
                i <= s.len(),
                prev <= n,
                i == 0 ==> prev == 0,
                i > 0 ==> prev == s[i - 1].1.end,
                buf@ + apply_from(text@, s, i as int, prev as int) == apply_indels(text@, s),
            decreases s.len() - i,
        {
            let d = &self.indels[i];
            assert(d@ == s[i as int]);
            assert(s[i as int].1.end <= indels_end(s)) by {
                if i + 1 < s.len() {
                    assert(s[i as int].1.end <= s[s.len() - 1].1.start);
                    assert(s[s.len() - 1].1.wf());
                }
            }
            assert(s[i as int].1.wf());
            if i > 0 {
                assert(s[i - 1].1.end <= s[i as int].1.start);
            }
            let start = d.delete.start;
            let piece = text.as_str().substring_char(prev as usize, start as usize);
            let ghost before = buf@;
            buf.append(piece);
            buf.append(d.insert.as_str());
            assert(buf@ == before + text@.subrange(prev as int, start as int) + s[i as int].0);
            assert(buf@ + apply_from(text@, s, i + 1, s[i as int].1.end as int) == apply_indels(text@, s)) by {
                assert(apply_from(text@, s, i as int, prev as int) == text@.subrange(prev as int, start as int)
                    + s[i as int].0 + apply_from(text@, s, i + 1, s[i as int].1.end as int));
                assert(before + (text@.subrange(prev as int, start as int) + s[i as int].0 + apply_from(text@, s, i + 1, s[i as int].1.end as int))
                    =~= before + text@.subrange(prev as int, start as int) + s[i as int].0 + apply_from(text@, s, i + 1, s[i as int].1.end as int));
            }
            prev = d.delete.end;
            i = i + 1;
        }
        let tail = text.as_str().substring_char(prev as usize, n);
        buf.append(tail);
        buf
    }
}

/// Collects operations into an edit, keeping them sorted as they come.
pub struct TextEditBuilder {
    indels: Vec<Indel>,
}

impl View for TextEditBuilder {
    type V = Seq<IndelModel>;

    closed spec fn view(&self) -> Seq<IndelModel> {
        self.indels@.map_values(|d: Indel| d@)
    }
}

/// Whether an operation on `r` can join the operations `s`.
pub open spec fn fits(s: Seq<IndelModel>, r: TextRange) -> bool {
    &&& r.wf()
    &&& forall|i: int| 0 <= i < s.len() ==> disjoint(#[trigger] s[i].1, r)
}

/// Where an operation on `r` goes among the sorted operations `s`: after the
/// last one that does not come after it.
pub open spec fn sorted_pos(s: Seq<IndelModel>, r: TextRange) -> int
    decreases s.len(),
{
    if s.len() == 0 {
        0
    } else if range_le(s.last().1, r) {
        s.len() as int
    } else {
        sorted_pos(s.drop_last(), r)
    }
}

/// The operations `s` with `d` added in its sorted place.
pub open spec fn with_indel(s: Seq<IndelModel>, d: IndelModel) -> Seq<IndelModel> {
    s.insert(sorted_pos(s, d.1), d)
}

proof fn lemma_wf_sorted(s: Seq<IndelModel>, i: int, j: int)
    requires
        indels_wf(s),
        0 <= i <= j < s.len(),
    ensures
        range_le(s[i].1, s[j].1),
{
    if i < j {
        assert(s[i].1.end <= s[j].1.start);
        assert(s[i].1.wf() && s[j].1.wf());
    }
}

proof fn lemma_sorted_pos(s: Seq<IndelModel>, r: TextRange)
    requires
        indels_wf(s),
    ensures
        0 <= sorted_pos(s, r) <= s.len(),
        forall|i: int| 0 <= i < sorted_pos(s, r) ==> range_le(#[trigger] s[i].1, r),
        forall|i: int| sorted_pos(s, r) <= i < s.len() ==> !range_le(#[trigger] s[i].1, r),
    decreases s.len(),
{
    if s.len() > 0 {
        if range_le(s.last().1, r) {
            assert forall|i: int| 0 <= i < s.len() implies range_le(#[trigger] s[i].1, r) by {
                lemma_wf_sorted(s, i, s.len() - 1);
            }
        } else {
            let t = s.drop_last();
            assert(indels_wf(t)) by {
                assert forall|i: int| 0 <= i < t.len() implies (#[trigger] t[i]).1.wf() by {
                    assert(t[i] == s[i]);
                }
                assert forall|i: int, j: int| 0 <= i < j < t.len() implies (#[trigger] t[i]).1.end <= (
                #[trigger] t[j]).1.start by {
                    assert(t[i] == s[i] && t[j] == s[j]);
                }
            }
            lemma_sorted_pos(t, r);
            assert forall|i: int| 0 <= i < sorted_pos(s, r) implies range_le(#[trigger] s[i].1, r) by {
                assert(t[i] == s[i]);
            }
            assert forall|i: int| sorted_pos(s, r) <= i < s.len() implies !range_le(#[trigger] s[i].1, r) by {
                if i < t.len() {
                    assert(t[i] == s[i]);
                }
            }
        }
    }
}

proof fn lemma_sorted_pos_at(s: Seq<IndelModel>, r: TextRange, j: int)
    requires
        0 <= j <= s.len(),
        forall|k: int| j <= k < s.len() ==> !range_le(#[trigger] s[k].1, r),
        j == 0 || range_le(s[j - 1].1, r),
    ensures
        sorted_pos(s, r) == j,
    decreases s.len(),
{
    if s.len() > 0 && j < s.len() {
        let t = s.drop_last();
        assert(!range_le(s[s.len() - 1].1, r));
        assert forall|k: int| j <= k < t.len() implies !range_le(#[trigger] t[k].1, r) by {
            assert(t[k] == s[k]);
        }
        if j > 0 {
            assert(t[j - 1] == s[j - 1]);
        }
        lemma_sorted_pos_at(t, r, j);
    }
}

/// Adding an operation that fits keeps the operations sorted and disjoint.
proof fn lemma_with_indel_wf(s: Seq<IndelModel>, d: IndelModel)
    requires
        indels_wf(s),
        fits(s, d.1),
    ensures
        indels_wf(with_indel(s, d)),
{
    lemma_sorted_pos(s, d.1);
    let p = sorted_pos(s, d.1);
    let u = with_indel(s, d);
    assert(u.len() == s.len() + 1);
    assert forall|i: int| 0 <= i < u.len() implies (#[trigger] u[i]).1.wf() by {
        if i < p {
            assert(u[i] == s[i]);
        } else if i > p {
            assert(u[i] == s[i - 1]);
        }
    }
    assert forall|i: int, j: int| 0 <= i < j < u.len() implies (#[trigger] u[i]).1.end <= (
    #[trigger] u[j]).1.start by {
        if j < p {
            assert(u[i] == s[i] && u[j] == s[j]);
        } else if j == p {
            assert(u[i] == s[i]);
            assert(range_le(s[i].1, d.1) && disjoint(s[i].1, d.1) && s[i].1.wf());
        } else if i == p {
            assert(u[j] == s[j - 1]);
            assert(!range_le(s[j - 1].1, d.1) && disjoint(s[j - 1].1, d.1) && s[j - 1].1.wf());
        } else if i < p {
            assert(u[i] == s[i] && u[j] == s[j - 1]);
        } else {
            assert(u[i] == s[i - 1] && u[j] == s[j - 1]);
        }
    }
}

impl TextEditBuilder {
    pub fn new() -> (r: TextEditBuilder)
        ensures
            r@ == Seq::<IndelModel>::empty(),
    {
        TextEditBuilder { indels: Vec::new() }
    }

    pub open spec fn wf(&self) -> bool {
        indels_wf(self@)
    }

    fn push_indel(&mut self, d: Indel)
        requires
            old(self).wf(),
            fits(old(self)@, d.delete),
        ensures
            final(self)@ == with_indel(old(self)@, d@),
            final(self).wf(),
    {
        let ghost s = self@;
        let ghost r = d.delete;
        let mut j: usize = self.indels.len();
        while j > 0 && !(self.indels[j - 1].delete.start < d.delete.start || (self.indels[j - 1].delete.start
            == d.delete.start && self.indels[j - 1].delete.end <= d.delete.end))
            invariant
                s == self@,
                r == d.delete,
                j <= s.len(),
                forall|k: int| j <= k < s.len() ==> !range_le(#[trigger] s[k].1, r),
            decreases j,
        {
            assert(self.indels[j - 1]@ == s[j - 1]);
            j = j - 1;
        }
        if j > 0 {
            assert(self.indels[j - 1]@ == s[j - 1]);
        }
        proof {
            lemma_sorted_pos_at(s, r, j as int);
            lemma_with_indel_wf(s, d@);
        }
        self.indels.insert(j, d);
        assert(self@ =~= with_indel(s, d@));
    }

    /// Deletes `range`, which must not overlap an earlier operation.
    pub fn delete(&mut self, range: TextRange)
        requires
            old(self).wf(),
            fits(old(self)@, range),
        ensures
            final(self)@ == with_indel(old(self)@, (Seq::<char>::empty(), range)),
            final(self).wf(),
    {
        self.push_indel(Indel::delete(range));
    }

    /// Inserts `text` at `offset`, which must not fall inside an earlier operation.
    pub fn insert(&mut self, offset: u32, text: String)
        requires
            old(self).wf(),
            fits(old(self)@, TextRange { start: offset, end: offset }),
        ensures
            final(self)@ == with_indel(old(self)@, (text@, TextRange { start: offset, end: offset })),
            final(self).wf(),
    {
        self.push_indel(Indel::insert(offset, text));
    }

    pub fn finish(self) -> (r: TextEdit)
        ensures
            r@ == self@,
    {
        TextEdit { indels: self.indels }
    }
}

} // verus!
