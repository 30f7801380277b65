//! The handle of an open file: its inode, the machine that leads it, and
//! the segments that hold its data, the last of which takes the writes.

use vstd::prelude::*;
use crate::types::{Block, Segment, SegmentView};

verus! {

/// The mathematical values of `segments`, in order.
pub open spec fn segment_views(segments: Seq<Segment>) -> Seq<SegmentView> {
    segments.map_values(|s: Segment| s@)
}

#[derive(Debug)]
pub struct FileHandle {
    pub ino: u64,
    pub leader: String,
    pub segments: Vec<Segment>,
}

/// The mathematical value of a [`FileHandle`].
pub struct FileHandleView {
    pub ino: u64,
    pub leader: Seq<char>,
    pub segments: Seq<SegmentView>,
}

impl View for FileHandle {
    type V = FileHandleView;

    open spec fn view(&self) -> FileHandleView {
        FileHandleView {
            ino: self.ino,
            leader: self.leader@,
            segments: segment_views(self.segments@),
        }
    }
}

impl FileHandleView {
    /// The handle's invariant: every segment holds its own invariant and is
    /// led by the handle's machine.
    pub open spec fn wf(self) -> bool {
        forall|i: int|
            0 <= i < self.segments.len() ==> (#[trigger] self.segments[i]).wf()
                && self.segments[i].leader == self.leader
    }

    /// The handle with `seg` appended as its new tail.
    pub open spec fn push_segment(self, seg: SegmentView) -> FileHandleView {
        FileHandleView { segments: self.segments.push(seg), ..self }
    }

    /// The position of the first segment named `(id0, id1)`, if there is one.
    pub open spec fn find_segment(self, id0: u64, id1: u64) -> Option<int> {
        first_segment(self.segments, id0, id1)
    }
}

/// The position in `segments` of the first segment named `(id0, id1)`.
pub open spec fn first_segment(segments: Seq<SegmentView>, id0: u64, id1: u64) -> Option<int>
    decreases segments.len(),
{
    if segments.len() == 0 {
        None
    } else {
        match first_segment(segments.drop_last(), id0, id1) {
            Some(i) => Some(i),
            None => if segments.last().seg_id0 == id0 && segments.last().seg_id1 == id1 {
                Some(segments.len() - 1)
            } else {
                None
            },
        }
    }
}

/// `first_segment` finds a segment with the given name and none before it;
/// it finds nothing only where no segment has that name.
pub proof fn lemma_first_segment(segments: Seq<SegmentView>, id0: u64, id1: u64)
    ensures
        match first_segment(segments, id0, id1) {
            Some(i) => {
                &&& 0 <= i < segments.len()
                &&& segments[i].seg_id0 == id0
                &&& segments[i].seg_id1 == id1
                &&& forall|j: int|
                    0 <= j < i ==> !((#[trigger] segments[j]).seg_id0 == id0 && segments[j].seg_id1
                        == id1)
            },
            None => forall|j: int|
                0 <= j < segments.len() ==> !((#[trigger] segments[j]).seg_id0 == id0
                    && segments[j].seg_id1 == id1),
        },
    decreases segments.len(),
{
    if segments.len() > 0 {
        let front = segments.drop_last();
        lemma_first_segment(front, id0, id1);
        match first_segment(front, id0, id1) {
            Some(i) => {
                assert(front[i] == segments[i]);
                assert forall|j: int| 0 <= j < i implies !((#[trigger] segments[j]).seg_id0 == id0
                    && segments[j].seg_id1 == id1) by {
                    assert(front[j] == segments[j]);
                }
            },
            None => {
                assert forall|j: int| 0 <= j < segments.len() - 1 implies !((
                #[trigger] segments[j]).seg_id0 == id0 && segments[j].seg_id1 == id1) by {
                    assert(front[j] == segments[j]);
                }
            },
        }
    }
}

/// The position of the first segment with a given name depends on the
/// names of the segments alone.
pub proof fn lemma_first_segment_by_names(
    a: Seq<SegmentView>,
    b: Seq<SegmentView>,
    id0: u64,
    id1: u64,
)
    requires
        a.len() == b.len(),
        forall|j: int|
            0 <= j < a.len() ==> (#[trigger] a[j]).seg_id0 == b[j].seg_id0 && a[j].seg_id1
                == b[j].seg_id1,
    ensures
        first_segment(a, id0, id1) == first_segment(b, id0, id1),
    decreases a.len(),
{
    if a.len() > 0 {
        let fa = a.drop_last();
        let fb = b.drop_last();
        assert forall|j: int| 0 <= j < fa.len() implies (#[trigger] fa[j]).seg_id0 == fb[j].seg_id0
            && fa[j].seg_id1 == fb[j].seg_id1 by {
            assert(a[j].seg_id0 == b[j].seg_id0);
        }
        lemma_first_segment_by_names(fa, fb, id0, id1);
        assert(a[a.len() - 1].seg_id0 == b[a.len() - 1].seg_id0);
    }
}

/// The blocks of `segments`, segment after segment, each segment's blocks
/// in their own order.
pub open spec fn all_blocks(segments: Seq<SegmentView>) -> Seq<Block>
    decreases segments.len(),
{
    if segments.len() == 0 {
        Seq::<Block>::empty()
    } else {
        all_blocks(segments.drop_last()) + segments.last().blocks
    }
}

impl FileHandle {
    /// An independent copy of the handle.
    pub fn copy(&self) -> (h: FileHandle)
        ensures
            h@ == self@,
    {
        let mut segments: Vec<Segment> = Vec::new();
        let mut i: usize = 0;
        while i < self.segments.len()
            invariant
                i <= self.segments.len(),
                segments@.len() == i,
                forall|j: int| 0 <= j < i ==> (#[trigger] segments@[j])@ == self.segments@[j]@,
            decreases self.segments.len() - i,
        {
            segments.push(self.segments[i].copy());
            i += 1;
        }
        assert(segment_views(segments@) =~= segment_views(self.segments@));
        FileHandle { ino: self.ino, leader: self.leader.clone(), segments }
    }

    /// The handle of `ino` with no leader and no segment yet.
    pub fn new(ino: u64) -> (h: FileHandle)
        ensures
            h@ == (FileHandleView {
                ino,
                leader: Seq::<char>::empty(),
                segments: Seq::<SegmentView>::empty(),
            }),
            h@.wf(),
    {
        let h = FileHandle { ino, leader: String::new(), segments: Vec::new() };
        assert(segment_views(h.segments@) =~= Seq::<SegmentView>::empty());
        h
    }
}

/// What an update of the handle table does.
#[derive(Clone, Copy, Debug, PartialEq, Eq, Structural)]
pub enum MsgUpdateHandleType {
    MsgHandleAdd,
    MsgHandleDel,
}

/// A request to add a handle to the table or to delete the one with the
/// same inode.
#[derive(Debug)]
pub struct MsgUpdateHandle {
    pub update_type: MsgUpdateHandleType,
    pub handle: FileHandle,
}

} // verus!
