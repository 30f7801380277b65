//! The segment manager: fresh segments, where a segment's file lives, and
//! the checks on the segment lists exchanged with the metadata service.

use vstd::prelude::*;
use vstd::string::StringExecFns;
use crate::errno::Errno;
use crate::file_handle::segment_views;
use crate::ids::uuid_u64_le;
use crate::text::{decimal, hex, push_decimal, push_hex};
use crate::types::{Block, MetaSegment, MetaSegmentView, Segment, SegmentView};

verus! {

/// The partition of a segment whose first half is `id0`, among
/// `partitions` partitions; a manager without partitions keeps all
/// segments in partition 0.
pub open spec fn partition_of(id0: u64, partitions: u64) -> u64 {
    if partitions == 0 {
        0
    } else {
        id0 % partitions
    }
}

/// The directory of segment `(id0, id1)` under `root`: the root, the
/// partition in decimal, and the two halves of the name in hexadecimal,
/// each followed by a slash.
pub open spec fn segment_dir(root: Seq<char>, partitions: u64, id0: u64, id1: u64) -> Seq<char> {
    root + seq!['/'] + decimal(partition_of(id0, partitions)) + seq!['/'] + hex(id0) + hex(id1)
        + seq!['/']
}

/// The segments of file `ino` that the metadata forms `metas` describe.
pub open spec fn segments_of_meta(ino: u64, metas: Seq<MetaSegmentView>) -> Seq<SegmentView> {
    metas.map_values(|m: MetaSegmentView| SegmentView::of_meta(ino, m))
}

/// The metadata forms of `segments`.
pub open spec fn meta_of_segments(segments: Seq<SegmentView>) -> Seq<MetaSegmentView> {
    segments.map_values(|s: SegmentView| s.meta())
}

/// The mathematical values of `metas`, in order.
pub open spec fn meta_views(metas: Seq<MetaSegment>) -> Seq<MetaSegmentView> {
    metas.map_values(|m: MetaSegment| m@)
}

/// Every segment of `metas` is led by `machine`.
pub open spec fn all_led_by(metas: Seq<MetaSegmentView>, machine: Seq<char>) -> bool {
    forall|i: int| 0 <= i < metas.len() ==> (#[trigger] metas[i]).leader == machine
}

pub struct SegmentMgr {
    root: String,
    partitions: u64,
    max_size: u64,
}

impl SegmentMgr {
    /// The directory under which all segments live.
    pub closed spec fn root(&self) -> Seq<char> {
        self.root@
    }

    /// The number of partitions of the root directory.
    pub closed spec fn partitions(&self) -> u64 {
        self.partitions
    }

    /// The capacity given to new segments.
    pub closed spec fn max_size(&self) -> u64 {
        self.max_size
    }

    pub fn new(root: &String, partitions: u64, max_size: u64) -> (mgr: SegmentMgr)
        ensures
            mgr.root() == root@,
            mgr.partitions() == partitions,
            mgr.max_size() == max_size,
    {
        SegmentMgr { root: root.clone(), partitions, max_size }
    }

    /// The empty segment `(id0, id1)` led by `leader`, with the configured
    /// capacity.
    pub fn new_segment_with(&self, id0: u64, id1: u64, leader: &String) -> (s: Segment)
        ensures
            s@ == (SegmentView {
                seg_id0: id0,
                seg_id1: id1,
                leader: leader@,
                max_size: self.max_size(),
                blocks: Seq::<Block>::empty(),
            }),
            s@.wf(),
    {
        Segment::create(id0, id1, leader, self.max_size)
    }

    /// An empty segment led by `leader`, with a fresh random name and the
    /// configured capacity.
    pub fn new_segment(&self, leader: &String) -> (s: Segment)
        ensures
            s@.leader == leader@,
            s@.max_size == self.max_size(),
            s@.blocks == Seq::<Block>::empty(),
            s@.wf(),
    {
        let ids = uuid_u64_le();
        self.new_segment_with(ids.0, ids.1, leader)
    }

    /// The directory of segment `(id0, id1)`. It depends on the name and
    /// on the manager's configuration alone.
    pub fn get_segment_dir(&self, id0: u64, id1: u64) -> (dir: String)
        ensures
            dir@ == segment_dir(self.root(), self.partitions(), id0, id1),
    {
        let part: u64 = if self.partitions == 0 {
            0
        } else {
            id0 % self.partitions
        };
        let mut dir = self.root.clone();
        proof {
            reveal_strlit("/");
        }
        dir.append("/");
        push_decimal(&mut dir, part);
        dir.append("/");
        push_hex(&mut dir, id0);
        push_hex(&mut dir, id1);
        dir.append("/");
        assert(dir@ =~= segment_dir(self.root(), self.partitions(), id0, id1));
        dir
    }

    /// Checks the segments that the metadata service gave for file `ino`:
    /// if each is led by `machine` they are the file's segments, in the
    /// order given; one led by another machine fails the whole list with
    /// `Eintr`.
    pub fn get_file_segments(&self, ino: u64, machine: &String, fetched: &Vec<MetaSegment>) -> (r:
        Result<Vec<Segment>, Errno>)
        ensures
            match r {
                Ok(segments) => all_led_by(meta_views(fetched@), machine@) && segment_views(
                    segments@,
                ) == segments_of_meta(ino, meta_views(fetched@)),
                Err(e) => e == Errno::Eintr && !all_led_by(meta_views(fetched@), machine@),
            },
    {
        let mut segments: Vec<Segment> = Vec::new();
        let mut i: usize = 0;
        while i < fetched.len()
            invariant
                i <= fetched.len(),
                segments@.len() == i,
                forall|j: int|
                    0 <= j < i ==> (#[trigger] segments@[j])@ == SegmentView::of_meta(
                        ino,
                        fetched@[j]@,
                    ),
                forall|j: int| 0 <= j < i ==> (#[trigger] fetched@[j])@.leader == machine@,
            decreases fetched.len() - i,
        {
            if fetched[i].leader != *machine {
                assert(meta_views(fetched@)[i as int].leader != machine@);
                return Err(Errno::Eintr);
            }
            segments.push(Segment::from_meta_segment(ino, &fetched[i]));
            i += 1;
        }
        assert(segment_views(segments@) =~= segments_of_meta(ino, meta_views(fetched@)));
        assert(all_led_by(meta_views(fetched@), machine@));
        Ok(segments)
    }

    /// The segment list to send to the metadata service for `segments`.
    pub fn update_segments_request(&self, segments: &Vec<Segment>) -> (metas: Vec<MetaSegment>)
        ensures
            meta_views(metas@) == meta_of_segments(segment_views(segments@)),
    {
        let mut metas: Vec<MetaSegment> = Vec::new();
        let mut i: usize = 0;
        while i < segments.len()
            invariant
                i <= segments.len(),
                metas@.len() == i,
                forall|j: int| 0 <= j < i ==> (#[trigger] metas@[j])@ == segments@[j]@.meta(),
            decreases segments.len() - i,
        {
            metas.push(segments[i].to_meta_segment());
            i += 1;
        }
        assert(meta_views(metas@) =~= meta_of_segments(segment_views(segments@)));
        metas
    }
}

} // verus!
