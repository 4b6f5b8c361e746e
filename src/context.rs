//! The editor's view of a document: regions of text, one of which may hold
//! the selection.

use std::ops::Range;
use vstd::prelude::*;
use vstd::utf8::encode_utf8;

verus! {

/// A contiguous span of editor text, and whether it holds the selection.
pub struct ContentRegion {
    pub text: String,
    pub selected: bool,
}

/// The text an editor shows, as an ordered list of regions.
pub struct EditorContext {
    pub contents: Vec<ContentRegion>,
}

/// The bytes of one region's text.
pub open spec fn region_bytes(r: ContentRegion) -> Seq<u8> {
    encode_utf8(r.text@)
}

/// The logical buffer: the bytes of all regions, in order.
pub open spec fn buffer_of(rs: Seq<ContentRegion>) -> Seq<u8>
    decreases rs.len(),
{
    if rs.len() == 0 {
        Seq::empty()
    } else {
        buffer_of(rs.drop_last()) + region_bytes(rs.last())
    }
}

/// The byte span of the first selected region, if some region is selected.
pub open spec fn selected_span(rs: Seq<ContentRegion>) -> Option<(int, int)>
    decreases rs.len(),
{
    if rs.len() == 0 {
        None
    } else {
        match selected_span(rs.drop_last()) {
            Some(s) => Some(s),
            None => if rs.last().selected {
                Some((buffer_of(rs.drop_last()).len() as int, buffer_of(rs).len() as int))
            } else {
                None
            },
        }
    }
}

/// The selection range within the logical buffer: `0..0` when no region is
/// selected.
pub open spec fn selection_of(rs: Seq<ContentRegion>) -> (int, int) {
    match selected_span(rs) {
        Some(s) => s,
        None => (0, 0),
    }
}

/// A match range and a selection overlap when the match covers the whole
/// selection and ends after the selection starts.
pub open spec fn overlap_holds(m: (int, int), sel: (int, int)) -> bool {
    m.0 <= sel.0 && m.1 >= sel.1 && sel.0 < m.1
}

impl EditorContext {
    /// The buffer is the one the engine searches.
    pub open spec fn buffer(&self) -> Seq<u8> {
        buffer_of(self.contents@)
    }

    pub open spec fn selection(&self) -> (int, int) {
        selection_of(self.contents@)
    }

    /// The regions, in order.
    pub fn contents_ref(&self) -> (r: &[ContentRegion])
        ensures
            r@ == self.contents@,
    {
        self.contents.as_slice()
    }
}

pub proof fn lemma_buffer_step(rs: Seq<ContentRegion>, i: int)
    requires
        0 <= i < rs.len(),
    ensures
        buffer_of(rs.take(i + 1)) == buffer_of(rs.take(i)) + region_bytes(rs[i]),
        selected_span(rs.take(i + 1)) == match selected_span(rs.take(i)) {
            Some(s) => Some(s),
            None => if rs[i].selected {
                Some(
                    (
                        buffer_of(rs.take(i)).len() as int,
                        (buffer_of(rs.take(i)).len() + region_bytes(rs[i]).len()) as int,
                    ),
                )
            } else {
                None
            },
        },
{
    assert(rs.take(i + 1).drop_last() =~= rs.take(i));
}

pub proof fn lemma_buffer_prefix(rs: Seq<ContentRegion>, i: int)
    requires
        0 <= i <= rs.len(),
    ensures
        buffer_of(rs.take(i)).len() <= buffer_of(rs).len(),
        selected_span(rs.take(i)) is Some ==> selected_span(rs) == selected_span(rs.take(i)),
    decreases rs.len(),
{
    if i == rs.len() {
        assert(rs.take(i) =~= rs);
    } else {
        assert(rs.drop_last().take(i) =~= rs.take(i));
        lemma_buffer_prefix(rs.drop_last(), i);
    }
}

/// The bytes of every region, concatenated in order.
pub fn logical_buffer(contents: &[ContentRegion]) -> (r: Vec<u8>)
    ensures
        r@ == buffer_of(contents@),
{
    let mut buf: Vec<u8> = Vec::new();
    let mut i: usize = 0;
    while i < contents.len()
        invariant
            i <= contents@.len(),
            buf@ == buffer_of(contents@.take(i as int)),
        decreases contents@.len() - i,
    {
        let bytes = contents[i].text.as_str().as_bytes();
        let ghost before = buf@;
        let mut j: usize = 0;
        while j < bytes.len()
            invariant
                j <= bytes@.len(),
                buf@ == before + bytes@.take(j as int),
            decreases bytes@.len() - j,
        {
            buf.push(bytes[j]);
            j = j + 1;
            assert(buf@ =~= before + bytes@.take(j as int));
        }
        assert(bytes@.take(j as int) =~= bytes@);
        proof {
            lemma_buffer_step(contents@, i as int);
        }
        i = i + 1;
    }
    assert(contents@.take(i as int) =~= contents@);
    buf
}

/// The byte span of the first selected region within the logical buffer, or
/// `0..0` when no region is selected.
pub fn selected(contents: &[ContentRegion]) -> (r: Range<usize>)
    requires
        buffer_of(contents@).len() <= usize::MAX,
    ensures
        (r.start as int, r.end as int) == selection_of(contents@),
{
    let mut start: usize = 0;
    let mut i: usize = 0;
    while i < contents.len()
        invariant
            i <= contents@.len(),
            buffer_of(contents@).len() <= usize::MAX,
            start == buffer_of(contents@.take(i as int)).len(),
            selected_span(contents@.take(i as int)) is None,
        decreases contents@.len() - i,
    {
        proof {
            lemma_buffer_step(contents@, i as int);
            lemma_buffer_prefix(contents@, i as int + 1);
        }
        let len = contents[i].text.as_str().len();
        if contents[i].selected {
            proof {
                lemma_buffer_prefix(contents@, i as int + 1);
            }
            return start..(start + len);
        }
        start = start + len;
        i = i + 1;
    }
    assert(contents@.take(i as int) =~= contents@);
    0..0
}

/// Whether the match range `larger` overlaps the selection `smaller`.
pub fn overlaps(larger: &Range<usize>, smaller: &Range<usize>) -> (r: bool)
    ensures
        r == overlap_holds(
            (larger.start as int, larger.end as int),
            (smaller.start as int, smaller.end as int),
        ),
{
    larger.start <= smaller.start && larger.end >= smaller.end && smaller.start < larger.end
}

} // verus!
