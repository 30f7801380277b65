//! Blocks and segments: where the bytes of a file live.

use vstd::prelude::*;
use crate::ids::uuid_u64_le;

verus! {

/// A contiguous range of file bytes stored at `[seg_start_addr, seg_end_addr)`
/// of one segment.
#[derive(Clone, Copy, Debug, Default, PartialEq, Eq, Structural)]
pub struct Block {
    pub ino: u64,
    pub generation: u64,
    /// Offset in the file named by `ino` and `generation`.
    pub offset: u64,
    /// First byte of the block in its segment.
    pub seg_start_addr: u64,
    /// One past the last byte of the block in its segment.
    pub seg_end_addr: u64,
    pub size: i64,
}

/// What the metadata service keeps of a block.
#[derive(Clone, Copy, Debug, Default, PartialEq, Eq, Structural)]
pub struct MetaBlock {
    pub offset: u64,
    pub seg_start_addr: u64,
    pub seg_end_addr: u64,
    pub size: i64,
}

impl Block {
    /// A block is well formed when it is not empty and its end address is
    /// its start address plus its size.
    pub open spec fn wf(self) -> bool {
        &&& self.size > 0
        &&& self.seg_end_addr == self.seg_start_addr + self.size
    }

    /// One past the last file offset that the block covers.
    pub open spec fn file_end(self) -> int {
        self.offset + self.size
    }

    /// The part of the block that the metadata service keeps.
    pub open spec fn meta(self) -> MetaBlock {
        MetaBlock {
            offset: self.offset,
            seg_start_addr: self.seg_start_addr,
            seg_end_addr: self.seg_end_addr,
            size: self.size,
        }
    }

    /// The block of file `ino`, generation `generation`, that `m` describes.
    pub open spec fn of_meta(ino: u64, generation: u64, m: MetaBlock) -> Block {
        Block {
            ino,
            generation,
            offset: m.offset,
            seg_start_addr: m.seg_start_addr,
            seg_end_addr: m.seg_end_addr,
            size: m.size,
        }
    }

    pub fn copy(&self) -> (b: Block)
        ensures
            b == *self,
    {
        Block {
            ino: self.ino,
            generation: self.generation,
            offset: self.offset,
            seg_start_addr: self.seg_start_addr,
            seg_end_addr: self.seg_end_addr,
            size: self.size,
        }
    }

    pub fn to_meta_block(&self) -> (m: MetaBlock)
        ensures
            m == self.meta(),
    {
        MetaBlock {
            offset: self.offset,
            seg_start_addr: self.seg_start_addr,
            seg_end_addr: self.seg_end_addr,
            size: self.size,
        }
    }

    pub fn from_meta_block(ino: u64, generation: u64, m: &MetaBlock) -> (b: Block)
        ensures
            b == Block::of_meta(ino, generation, *m),
    {
        Block {
            ino,
            generation,
            offset: m.offset,
            seg_start_addr: m.seg_start_addr,
            seg_end_addr: m.seg_end_addr,
            size: m.size,
        }
    }
}

/// Turning a block into its metadata form and back, for the same file,
/// gives the block again.
pub proof fn lemma_block_meta_round_trip(b: Block)
    ensures
        Block::of_meta(b.ino, b.generation, b.meta()) == b,
{
}

/// Reading a block from its metadata form and writing it back gives the
/// metadata form again.
pub proof fn lemma_meta_block_round_trip(ino: u64, generation: u64, m: MetaBlock)
    ensures
        Block::of_meta(ino, generation, m).meta() == m,
{
}

/// Receipt of one write: the segment written to, where the bytes start in
/// the segment file, and how many were written.
#[derive(Clone, Copy, Debug, Default, PartialEq, Eq, Structural)]
pub struct BlockIo {
    pub id0: u64,
    pub id1: u64,
    pub offset: u64,
    pub size: u32,
}

/// A segment and the directory that holds its file.
#[derive(Debug, Default)]
pub struct SegmentIo {
    pub id0: u64,
    pub id1: u64,
    pub dir: String,
}

/// The sum of the sizes of `blocks`.
pub open spec fn total_size(blocks: Seq<Block>) -> int
    decreases blocks.len(),
{
    if blocks.len() == 0 {
        0
    } else {
        total_size(blocks.drop_last()) + blocks.last().size
    }
}

/// Each block starts in the segment where the one before it ends.
pub open spec fn contiguous(blocks: Seq<Block>) -> bool {
    forall|i: int|
        0 <= i && i + 1 < blocks.len() ==> (#[trigger] blocks[i]).seg_start_addr + blocks[i].size
            == blocks[i + 1].seg_start_addr
}

/// Every block of `blocks` is well formed.
pub open spec fn all_wf(blocks: Seq<Block>) -> bool {
    forall|i: int| 0 <= i < blocks.len() ==> (#[trigger] blocks[i]).wf()
}

/// The metadata forms of `blocks`, in order.
pub open spec fn meta_blocks(blocks: Seq<Block>) -> Seq<MetaBlock> {
    blocks.map_values(|b: Block| b.meta())
}

/// The blocks of file `ino`, generation 0, that `metas` describe, in order.
pub open spec fn blocks_of_meta(ino: u64, metas: Seq<MetaBlock>) -> Seq<Block> {
    metas.map_values(|m: MetaBlock| Block::of_meta(ino, 0, m))
}

/// An append-only unit of storage: a file on local disk and the blocks
/// recorded in it, in the order in which they were written.
#[derive(Debug, Default)]
pub struct Segment {
    pub seg_id0: u64,
    pub seg_id1: u64,
    /// The machine that owns the segment.
    pub leader: String,
    /// The most bytes the segment's file may hold.
    pub max_size: u64,
    pub blocks: Vec<Block>,
}

/// The mathematical value of a [`Segment`].
pub struct SegmentView {
    pub seg_id0: u64,
    pub seg_id1: u64,
    pub leader: Seq<char>,
    pub max_size: u64,
    pub blocks: Seq<Block>,
}

/// What the metadata service keeps of a segment.
#[derive(Debug, Default)]
pub struct MetaSegment {
    pub seg_id0: u64,
    pub seg_id1: u64,
    pub leader: String,
    pub max_size: u64,
    pub blocks: Vec<MetaBlock>,
}

/// The mathematical value of a [`MetaSegment`].
pub struct MetaSegmentView {
    pub seg_id0: u64,
    pub seg_id1: u64,
    pub leader: Seq<char>,
    pub max_size: u64,
    pub blocks: Seq<MetaBlock>,
}

impl View for Segment {
    type V = SegmentView;

    open spec fn view(&self) -> SegmentView {
        SegmentView {
            seg_id0: self.seg_id0,
            seg_id1: self.seg_id1,
            leader: self.leader@,
            max_size: self.max_size,
            blocks: self.blocks@,
        }
    }
}

impl View for MetaSegment {
    type V = MetaSegmentView;

    open spec fn view(&self) -> MetaSegmentView {
        MetaSegmentView {
            seg_id0: self.seg_id0,
            seg_id1: self.seg_id1,
            leader: self.leader@,
            max_size: self.max_size,
            blocks: self.blocks@,
        }
    }
}

impl SegmentView {
    /// The bytes in use: the sum of the block sizes.
    pub open spec fn usage(self) -> int {
        total_size(self.blocks)
    }

    /// Where the next block starts in the segment file: the end of the last
    /// block, or 0 when there is none.
    pub open spec fn tail_end(self) -> int {
        if self.blocks.len() == 0 {
            0
        } else {
            self.blocks.last().seg_end_addr as int
        }
    }

    /// The segment's invariant: well-formed blocks, laid end to end, that
    /// together fit in `max_size`.
    pub open spec fn wf(self) -> bool {
        &&& all_wf(self.blocks)
        &&& contiguous(self.blocks)
        &&& self.usage() <= self.max_size
    }

    /// The segment with `b` appended to its blocks.
    pub open spec fn push_block(self, b: Block) -> SegmentView {
        SegmentView { blocks: self.blocks.push(b), ..self }
    }

    /// Whether `offset` lies between the first block's file offset and the
    /// end of the last block, both ends included.
    pub open spec fn contains(self, offset: u64) -> bool {
        &&& self.blocks.len() > 0
        &&& self.blocks[0].offset <= offset
        &&& offset <= self.blocks.last().file_end()
    }

    /// The part of the segment that the metadata service keeps.
    pub open spec fn meta(self) -> MetaSegmentView {
        MetaSegmentView {
            seg_id0: self.seg_id0,
            seg_id1: self.seg_id1,
            leader: self.leader,
            max_size: self.max_size,
            blocks: meta_blocks(self.blocks),
        }
    }

    /// The segment of file `ino` that `m` describes.
    pub open spec fn of_meta(ino: u64, m: MetaSegmentView) -> SegmentView {
        SegmentView {
            seg_id0: m.seg_id0,
            seg_id1: m.seg_id1,
            leader: m.leader,
            max_size: m.max_size,
            blocks: blocks_of_meta(ino, m.blocks),
        }
    }

    /// Every block belongs to file `ino`, generation 0.
    pub open spec fn owned_by(self, ino: u64) -> bool {
        forall|i: int|
            0 <= i < self.blocks.len() ==> (#[trigger] self.blocks[i]).ino == ino
                && self.blocks[i].generation == 0
    }
}

/// Well-formed blocks laid end to end span exactly the range from the start
/// of the first to the end of the last, so their sizes sum to no more than
/// the end of the last.
pub proof fn lemma_total_size_of_contiguous(blocks: Seq<Block>)
    requires
        all_wf(blocks),
        contiguous(blocks),
        blocks.len() > 0,
    ensures
        total_size(blocks) == blocks.last().seg_end_addr - blocks[0].seg_start_addr,
        0 < total_size(blocks) <= blocks.last().seg_end_addr,
    decreases blocks.len(),
{
    let front = blocks.drop_last();
    if front.len() > 0 {
        assert(all_wf(front)) by {
            assert forall|i: int| 0 <= i < front.len() implies (#[trigger] front[i]).wf() by {
                assert(blocks[i].wf());
            }
        }
        assert(contiguous(front)) by {
            assert forall|i: int| 0 <= i && i + 1 < front.len() implies (#[trigger] front[i]).seg_start_addr
                + front[i].size == front[i + 1].seg_start_addr by {
                assert(blocks[i].seg_start_addr + blocks[i].size == blocks[i + 1].seg_start_addr);
            }
        }
        lemma_total_size_of_contiguous(front);
        let k = blocks.len() - 2;
        assert(front.last() == blocks[k]);
        assert(front[0] == blocks[0]);
        assert(blocks[k].wf());
        assert(blocks[k].seg_start_addr + blocks[k].size == blocks[k + 1].seg_start_addr);
        assert(blocks.last().wf());
    } else {
        assert(total_size(front) == 0);
        assert(blocks[0].wf());
    }
}

/// Appending adds the new block's size to the total.
pub proof fn lemma_total_size_push(blocks: Seq<Block>, b: Block)
    ensures
        total_size(blocks.push(b)) == total_size(blocks) + b.size,
{
    assert(blocks.push(b).drop_last() =~= blocks);
}

/// A segment that holds its invariant keeps it when a well-formed block is
/// appended where the last one ends and the new end is within `max_size`.
/// The first block of a segment may start anywhere.
pub proof fn lemma_push_block_keeps_wf(s: SegmentView, b: Block)
    requires
        s.wf(),
        b.wf(),
        s.blocks.len() > 0 ==> b.seg_start_addr == s.tail_end(),
        b.seg_end_addr <= s.max_size,
    ensures
        s.push_block(b).wf(),
        s.push_block(b).usage() == s.usage() + b.size,
        s.push_block(b).tail_end() == b.seg_end_addr,
{
    let t = s.push_block(b);
    lemma_total_size_push(s.blocks, b);
    assert(all_wf(t.blocks)) by {
        assert forall|i: int| 0 <= i < t.blocks.len() implies (#[trigger] t.blocks[i]).wf() by {
            if i < s.blocks.len() {
                assert(s.blocks[i].wf());
            }
        }
    }
    assert(contiguous(t.blocks)) by {
        assert forall|i: int| 0 <= i && i + 1 < t.blocks.len() implies (#[trigger] t.blocks[i]).seg_start_addr
            + t.blocks[i].size == t.blocks[i + 1].seg_start_addr by {
            if i + 1 < s.blocks.len() {
                assert(s.blocks[i].seg_start_addr + s.blocks[i].size == s.blocks[i
                    + 1].seg_start_addr);
            } else {
                assert(s.blocks[i].wf());
            }
        }
    }
    if s.blocks.len() > 0 {
        lemma_total_size_of_contiguous(s.blocks);
    }
}

/// In a segment that holds its invariant, each block ends where the next
/// one starts, and the block sizes sum to no more than `max_size`.
pub proof fn lemma_wf_segment_is_append_only(s: SegmentView, i: int)
    requires
        s.wf(),
        0 <= i,
        i + 1 < s.blocks.len(),
    ensures
        s.blocks[i].seg_start_addr + s.blocks[i].size == s.blocks[i + 1].seg_start_addr,
        s.blocks[i].seg_end_addr == s.blocks[i + 1].seg_start_addr,
        total_size(s.blocks) <= s.max_size,
{
    assert(s.blocks[i].wf());
}

/// Reading a segment from its metadata form and writing it back gives the
/// metadata form again.
pub proof fn lemma_meta_segment_round_trip(ino: u64, m: MetaSegmentView)
    ensures
        SegmentView::of_meta(ino, m).meta() == m,
{
    let s = SegmentView::of_meta(ino, m);
    assert(meta_blocks(s.blocks) =~= m.blocks);
}

/// Writing a segment whose blocks all belong to file `ino`, generation 0, to
/// its metadata form and reading it back for `ino` gives the segment again.
pub proof fn lemma_segment_meta_round_trip(ino: u64, s: SegmentView)
    requires
        s.owned_by(ino),
    ensures
        SegmentView::of_meta(ino, s.meta()) == s,
{
    let t = SegmentView::of_meta(ino, s.meta());
    assert(t.blocks =~= s.blocks) by {
        assert forall|i: int| 0 <= i < s.blocks.len() implies t.blocks[i] == s.blocks[i] by {
            assert(s.blocks[i].ino == ino && s.blocks[i].generation == 0);
        }
    }
}

impl Segment {
    /// An empty segment owned by `leader`, with a fresh random identifier
    /// and no capacity configured.
    pub fn new(leader: &String) -> (s: Segment)
        ensures
            s@.leader == leader@,
            s@.max_size == 0,
            s@.blocks == Seq::<Block>::empty(),
            s@.wf(),
    {
        let ids = uuid_u64_le();
        Segment::create(ids.0, ids.1, leader, 0)
    }

    /// An empty segment with the given identifier, owner and capacity.
    pub fn create(seg_id0: u64, seg_id1: u64, leader: &String, max_size: u64) -> (s: Segment)
        ensures
            s@ == (SegmentView {
                seg_id0,
                seg_id1,
                leader: leader@,
                max_size,
                blocks: Seq::<Block>::empty(),
            }),
            s@.wf(),
    {
        Segment { seg_id0, seg_id1, leader: leader.clone(), max_size, blocks: Vec::new() }
    }

    /// An independent copy of the segment.
    pub fn copy(&self) -> (s: Segment)
        ensures
            s@ == self@,
    {
        let mut blocks: Vec<Block> = Vec::new();
        let mut i: usize = 0;
        while i < self.blocks.len()
            invariant
                i <= self.blocks.len(),
                blocks@ == self.blocks@.subrange(0, i as int),
            decreases self.blocks.len() - i,
        {
            blocks.push(self.blocks[i].copy());
            i += 1;
        }
        assert(self.blocks@.subrange(0, i as int) =~= self.blocks@);
        Segment {
            seg_id0: self.seg_id0,
            seg_id1: self.seg_id1,
            leader: self.leader.clone(),
            max_size: self.max_size,
            blocks,
        }
    }

    /// Records that `nwrite` bytes of file `ino`, starting at file offset
    /// `offset`, were written at `seg_start_offset` of the segment file.
    pub fn add_block(&mut self, ino: u64, offset: u64, seg_start_offset: u64, nwrite: u32)
        requires
            seg_start_offset + nwrite <= u64::MAX,
        ensures
            final(self)@ == old(self)@.push_block(
                Block {
                    ino,
                    generation: 0,
                    offset,
                    seg_start_addr: seg_start_offset,
                    seg_end_addr: (seg_start_offset + nwrite) as u64,
                    size: nwrite as i64,
                },
            ),
            old(self)@.wf() && nwrite > 0 && seg_start_offset + nwrite <= old(self).max_size && (
            old(self).blocks@.len() > 0 ==> seg_start_offset == old(self)@.tail_end())
                ==> final(self)@.wf(),
    {
        let b = Block {
            ino,
            generation: 0,
            offset,
            seg_start_addr: seg_start_offset,
            seg_end_addr: seg_start_offset + nwrite as u64,
            size: nwrite as i64,
        };
        proof {
            if self@.wf() && nwrite > 0 && seg_start_offset + nwrite <= self.max_size && (
            self.blocks@.len() > 0 ==> seg_start_offset == self@.tail_end()) {
                lemma_push_block_keeps_wf(self@, b);
            }
        }
        self.blocks.push(b);
    }

    /// The bytes in use: the sum of the block sizes.
    pub fn usage(&self) -> (total: u64)
        requires
            forall|i: int| 0 <= i < self.blocks@.len() ==> (#[trigger] self.blocks@[i]).size >= 0,
            self@.usage() <= u64::MAX,
        ensures
            total == self@.usage(),
    {
        let mut total: u64 = 0;
        let mut i: usize = 0;
        while i < self.blocks.len()
            invariant
                i <= self.blocks.len(),
                total == total_size(self.blocks@.subrange(0, i as int)),
                forall|j: int|
                    0 <= j < self.blocks@.len() ==> (#[trigger] self.blocks@[j]).size >= 0,
                total_size(self.blocks@) <= u64::MAX,
            decreases self.blocks.len() - i,
        {
            proof {
                let next = self.blocks@.subrange(0, i as int + 1);
                assert(next.drop_last() =~= self.blocks@.subrange(0, i as int));
                assert(next.last() == self.blocks@[i as int]);
                lemma_total_size_prefix(self.blocks@, i as int + 1);
            }
            total += self.blocks[i].size as u64;
            i += 1;
        }
        assert(self.blocks@.subrange(0, i as int) =~= self.blocks@);
        total
    }

    /// Whether `offset` lies between the first block's file offset and the
    /// end of the last block, both ends included.
    pub fn contains(&self, offset: u64) -> (b: bool)
        ensures
            b == self@.contains(offset),
    {
        if self.blocks.is_empty() {
            return false;
        }
        let len = self.blocks.len();
        if self.blocks[0].offset > offset {
            return false;
        }
        let last = &self.blocks[len - 1];
        if (last.offset as i128) + (last.size as i128) < (offset as i128) {
            return false;
        }
        true
    }

    /// Whether the segment holds no block.
    pub fn is_empty(&self) -> (b: bool)
        ensures
            b == (self@.blocks.len() == 0),
    {
        self.blocks.is_empty()
    }

    /// The part of the segment that the metadata service keeps.
    pub fn to_meta_segment(&self) -> (m: MetaSegment)
        ensures
            m@ == self@.meta(),
    {
        let mut blocks: Vec<MetaBlock> = Vec::new();
        let mut i: usize = 0;
        while i < self.blocks.len()
            invariant
                i <= self.blocks.len(),
                blocks@ == meta_blocks(self.blocks@.subrange(0, i as int)),
            decreases self.blocks.len() - i,
        {
            blocks.push(self.blocks[i].to_meta_block());
            assert(blocks@ =~= meta_blocks(self.blocks@.subrange(0, i as int + 1)));
            i += 1;
        }
        assert(self.blocks@.subrange(0, i as int) =~= self.blocks@);
        MetaSegment {
            seg_id0: self.seg_id0,
            seg_id1: self.seg_id1,
            leader: self.leader.clone(),
            max_size: self.max_size,
            blocks,
        }
    }

    /// The segment of file `ino` that `m` describes.
    pub fn from_meta_segment(ino: u64, m: &MetaSegment) -> (s: Segment)
        ensures
            s@ == SegmentView::of_meta(ino, m@),
    {
        let mut blocks: Vec<Block> = Vec::new();
        let mut i: usize = 0;
        while i < m.blocks.len()
            invariant
                i <= m.blocks.len(),
                blocks@ == blocks_of_meta(ino, m.blocks@.subrange(0, i as int)),
            decreases m.blocks.len() - i,
        {
            blocks.push(Block::from_meta_block(ino, 0, &m.blocks[i]));
            assert(blocks@ =~= blocks_of_meta(ino, m.blocks@.subrange(0, i as int + 1)));
            i += 1;
        }
        assert(m.blocks@.subrange(0, i as int) =~= m.blocks@);
        Segment {
            seg_id0: m.seg_id0,
            seg_id1: m.seg_id1,
            leader: m.leader.clone(),
            max_size: m.max_size,
            blocks,
        }
    }
}

/// With no negative size, a prefix of the blocks sums to no more than all
/// of them.
proof fn lemma_total_size_prefix(blocks: Seq<Block>, n: int)
    requires
        0 <= n <= blocks.len(),
        forall|j: int| 0 <= j < blocks.len() ==> (#[trigger] blocks[j]).size >= 0,
    ensures
        0 <= total_size(blocks.subrange(0, n)) <= total_size(blocks),
    decreases blocks.len() - n,
{
    if n == blocks.len() {
        assert(blocks.subrange(0, n) =~= blocks);
        lemma_total_size_nonnegative(blocks);
    } else {
        lemma_total_size_prefix(blocks, n + 1);
        let next = blocks.subrange(0, n + 1);
        assert(next.drop_last() =~= blocks.subrange(0, n));
        assert(next.last() == blocks[n]);
        lemma_total_size_nonnegative(blocks.subrange(0, n));
    }
}

proof fn lemma_total_size_nonnegative(blocks: Seq<Block>)
    requires
        forall|j: int| 0 <= j < blocks.len() ==> (#[trigger] blocks[j]).size >= 0,
    ensures
        0 <= total_size(blocks),
    decreases blocks.len(),
{
    if blocks.len() > 0 {
        let front = blocks.drop_last();
        assert forall|j: int| 0 <= j < front.len() implies (#[trigger] front[j]).size >= 0 by {
            assert(blocks[j].size >= 0);
        }
        lemma_total_size_nonnegative(front);
        assert(blocks.last() == blocks[blocks.len() - 1]);
    }
}

} // verus!
