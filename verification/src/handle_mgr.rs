//! The table of open file handles.
//!
//! One owner holds the table and applies the operations one at a time, so
//! the blocks of an inode are recorded in a single order. Readers get
//! copies; nothing outside the table can change what it holds.

use vstd::prelude::*;
use std::collections::HashMap;
use crate::errno::Errno;
use crate::file_handle::{
    all_blocks, first_segment, lemma_first_segment, lemma_first_segment_by_names, FileHandle,
    FileHandleView, MsgUpdateHandle, MsgUpdateHandleType,
};
use crate::types::{Block, Segment, SegmentView};

verus! {

broadcast use vstd::std_specs::hash::group_hash_axioms;

/// The table as a map from inode to handle.
pub type Table = Map<u64, FileHandleView>;

/// The handle with `b` appended to the blocks of its segment at `i`.
pub open spec fn handle_with_block(h: FileHandleView, i: int, b: Block) -> FileHandleView {
    FileHandleView { segments: h.segments.update(i, h.segments[i].push_block(b)), ..h }
}

/// The table after `add_segment(ino, seg)`: `seg` is the new tail of the
/// handle of `ino`; a table without that handle stays as it is.
pub open spec fn table_add_segment(t: Table, ino: u64, seg: SegmentView) -> Table {
    if t.contains_key(ino) {
        t.insert(ino, t[ino].push_segment(seg))
    } else {
        t
    }
}

/// Whether the table holds a handle for `ino` with a segment `(id0, id1)`.
pub open spec fn table_has_segment(t: Table, ino: u64, id0: u64, id1: u64) -> bool {
    t.contains_key(ino) && t[ino].find_segment(id0, id1) is Some
}

/// The table after `add_block(ino, id0, id1, b)`: `b` is appended to the
/// first segment `(id0, id1)` of the handle of `ino`; a table without such
/// a segment stays as it is.
pub open spec fn table_add_block(t: Table, ino: u64, id0: u64, id1: u64, b: Block) -> Table {
    if table_has_segment(t, ino, id0, id1) {
        t.insert(ino, handle_with_block(t[ino], t[ino].find_segment(id0, id1).unwrap(), b))
    } else {
        t
    }
}

/// Identity and capacity of the segment that takes the writes of a file.
#[derive(Clone, Copy, Debug, PartialEq, Eq, Structural)]
pub struct TailSegment {
    pub id0: u64,
    pub id1: u64,
    pub max_size: u64,
}

/// The tail of the handle of `ino`, if the table holds that handle and it
/// has a segment.
pub open spec fn table_tail(t: Table, ino: u64) -> Option<TailSegment> {
    if t.contains_key(ino) && t[ino].segments.len() > 0 {
        let s = t[ino].segments.last();
        Some(TailSegment { id0: s.seg_id0, id1: s.seg_id1, max_size: s.max_size })
    } else {
        None
    }
}

pub struct FileHandleMgr {
    handles: HashMap<u64, FileHandle>,
    stopped: bool,
}

impl View for FileHandleMgr {
    type V = Table;

    closed spec fn view(&self) -> Table {
        self.handles@.map_values(|h: FileHandle| h@)
    }
}

impl FileHandleMgr {
    /// The table's invariant: each handle is stored under its own inode.
    pub closed spec fn wf(&self) -> bool {
        forall|k: u64| #[trigger] self.handles@.contains_key(k) ==> self.handles@[k].ino == k
    }

    /// In a table that holds its invariant, the handle found under an inode
    /// carries that inode.
    pub proof fn lemma_keyed_by_ino(&self, ino: u64)
        requires
            self.wf(),
            self@.contains_key(ino),
        ensures
            self@[ino].ino == ino,
    {
    }

    /// Whether `stop` has been called.
    pub closed spec fn is_stopped(&self) -> bool {
        self.stopped
    }

    /// An empty table that accepts operations.
    pub fn create() -> (mgr: FileHandleMgr)
        ensures
            mgr.wf(),
            mgr@ == Table::empty(),
            !mgr.is_stopped(),
    {
        let mgr = FileHandleMgr { handles: HashMap::new(), stopped: false };
        assert(mgr@ =~= Table::empty());
        mgr
    }

    /// The number of handles in the table.
    pub fn len(&self) -> (n: usize)
        ensures
            n == self@.dom().len(),
    {
        assert(self@.dom() =~= self.handles@.dom());
        self.handles.len()
    }

    /// A copy of the handle of `ino`. `Enoent` when the table has none;
    /// `Eintr` once the table is stopped.
    pub fn get(&self, ino: u64) -> (r: Result<FileHandle, Errno>)
        requires
            self.wf(),
        ensures
            match r {
                Ok(h) => !self.is_stopped() && self@.contains_key(ino) && h@ == self@[ino] && h.ino
                    == ino,
                Err(e) => if self.is_stopped() {
                    e == Errno::Eintr
                } else {
                    e == Errno::Enoent && !self@.contains_key(ino)
                },
            },
    {
        if self.stopped {
            return Err(Errno::Eintr);
        }
        match self.handles.get(&ino) {
            Some(h) => Ok(h.copy()),
            None => Err(Errno::Enoent),
        }
    }

    /// Stores a copy of `handle` under its inode, in place of any handle
    /// that was there. A stopped table stays as it is.
    pub fn add(&mut self, handle: &FileHandle)
        requires
            old(self).wf(),
        ensures
            final(self).wf(),
            final(self).is_stopped() == old(self).is_stopped(),
            final(self)@ == if old(self).is_stopped() {
                old(self)@
            } else {
                old(self)@.insert(handle.ino, handle@)
            },
    {
        if self.stopped {
            return ;
        }
        let h = handle.copy();
        self.handles.insert(handle.ino, h);
        assert(self@ =~= old(self)@.insert(handle.ino, handle@));
    }

    /// Removes the handle of `ino`: `Esucc` if there was one, `Enoent` if
    /// not, `Eintr` once the table is stopped.
    pub fn del(&mut self, ino: u64) -> (e: Errno)
        requires
            old(self).wf(),
        ensures
            final(self).wf(),
            final(self).is_stopped() == old(self).is_stopped(),
            e == if old(self).is_stopped() {
                Errno::Eintr
            } else if old(self)@.contains_key(ino) {
                Errno::Esucc
            } else {
                Errno::Enoent
            },
            final(self)@ == if old(self).is_stopped() {
                old(self)@
            } else {
                old(self)@.remove(ino)
            },
    {
        if self.stopped {
            return Errno::Eintr;
        }
        let removed = self.handles.remove(&ino);
        assert(self@ =~= old(self)@.remove(ino));
        match removed {
            Some(_) => Errno::Esucc,
            None => Errno::Enoent,
        }
    }

    /// Appends a copy of `seg` to the handle of `ino`, where it becomes the
    /// tail. `Enoent` when the table has no such handle; `Eintr` once the
    /// table is stopped.
    pub fn add_segment(&mut self, ino: u64, seg: &Segment) -> (e: Errno)
        requires
            old(self).wf(),
        ensures
            final(self).wf(),
            final(self).is_stopped() == old(self).is_stopped(),
            e == if old(self).is_stopped() {
                Errno::Eintr
            } else if old(self)@.contains_key(ino) {
                Errno::Esucc
            } else {
                Errno::Enoent
            },
            final(self)@ == if old(self).is_stopped() {
                old(self)@
            } else {
                table_add_segment(old(self)@, ino, seg@)
            },
    {
        if self.stopped {
            return Errno::Eintr;
        }
        match self.handles.remove(&ino) {
            None => {
                assert(self@ =~= old(self)@);
                Errno::Enoent
            },
            Some(h) => {
                let mut h = h;
                h.segments.push(seg.copy());
                assert(h@.segments =~= old(self)@[ino].segments.push(seg@));
                self.handles.insert(ino, h);
                assert(self@ =~= table_add_segment(old(self)@, ino, seg@));
                Errno::Esucc
            },
        }
    }

    /// Appends `block` to the first segment `(id0, id1)` of the handle of
    /// `ino`. `Enoent` when the table has no such handle or the handle no
    /// such segment; `Eintr` once the table is stopped.
    pub fn add_block(&mut self, ino: u64, id0: u64, id1: u64, block: &Block) -> (e: Errno)
        requires
            old(self).wf(),
        ensures
            final(self).wf(),
            final(self).is_stopped() == old(self).is_stopped(),
            e == if old(self).is_stopped() {
                Errno::Eintr
            } else if table_has_segment(old(self)@, ino, id0, id1) {
                Errno::Esucc
            } else {
                Errno::Enoent
            },
            final(self)@ == if old(self).is_stopped() {
                old(self)@
            } else {
                table_add_block(old(self)@, ino, id0, id1, *block)
            },
    {
        if self.stopped {
            return Errno::Eintr;
        }
        match self.handles.remove(&ino) {
            None => {
                assert(self@ =~= old(self)@);
                Errno::Enoent
            },
            Some(h) => {
                let mut h = h;
                let ghost before = h@;
                assert(before == old(self)@[ino]);
                let n = h.segments.len();
                let mut i: usize = 0;
                while i < n && !(h.segments[i].seg_id0 == id0 && h.segments[i].seg_id1 == id1)
                    invariant
                        i <= n,
                        n == h.segments.len(),
                        forall|j: int|
                            0 <= j < i ==> !((#[trigger] h.segments@[j]).seg_id0 == id0
                                && h.segments@[j].seg_id1 == id1),
                    decreases n - i,
                {
                    i += 1;
                }
                proof {
                    lemma_first_segment(before.segments, id0, id1);
                    if i < n {
                        assert(before.segments[i as int] == h.segments@[i as int]@);
                        match first_segment(before.segments, id0, id1) {
                            Some(k) => {
                                if k < i {
                                    assert(before.segments[k] == h.segments@[k]@);
                                }
                            },
                            None => {},
                        }
                        assert(first_segment(before.segments, id0, id1) == Some(i as int));
                    } else {
                        match first_segment(before.segments, id0, id1) {
                            Some(k) => {
                                assert(before.segments[k] == h.segments@[k]@);
                            },
                            None => {},
                        }
                        assert(first_segment(before.segments, id0, id1) is None);
                    }
                }
                if i == n {
                    self.handles.insert(ino, h);
                    assert(self@ =~= old(self)@);
                    return Errno::Enoent;
                }
                let mut seg = h.segments.remove(i);
                seg.blocks.push(block.copy());
                h.segments.insert(i, seg);
                assert(h@.segments =~= before.segments.update(
                    i as int,
                    before.segments[i as int].push_block(*block),
                ));
                self.handles.insert(ino, h);
                assert(self@ =~= table_add_block(old(self)@, ino, id0, id1, *block));
                Errno::Esucc
            },
        }
    }

    /// Identity and capacity of the tail segment of `ino`. `Enoent` when
    /// the table has no handle for `ino` or the handle has no segment;
    /// `Eintr` once the table is stopped.
    pub fn get_last_segment(&self, ino: u64) -> (r: Result<TailSegment, Errno>)
        requires
            self.wf(),
        ensures
            r == if self.is_stopped() {
                Err::<TailSegment, Errno>(Errno::Eintr)
            } else {
                match table_tail(self@, ino) {
                    Some(tail) => Ok(tail),
                    None => Err(Errno::Enoent),
                }
            },
    {
        if self.stopped {
            return Err(Errno::Eintr);
        }
        match self.handles.get(&ino) {
            None => Err(Errno::Enoent),
            Some(h) => {
                let n = h.segments.len();
                if n == 0 {
                    Err(Errno::Enoent)
                } else {
                    let s = &h.segments[n - 1];
                    assert(h@.segments.last() == s@);
                    Ok(TailSegment { id0: s.seg_id0, id1: s.seg_id1, max_size: s.max_size })
                }
            },
        }
    }

    /// Applies an update: adds the handle of the message, or forgets the
    /// handle with the same inode.
    pub fn update(&mut self, msg: &MsgUpdateHandle) -> (e: Errno)
        requires
            old(self).wf(),
        ensures
            final(self).wf(),
            final(self).is_stopped() == old(self).is_stopped(),
            e == if old(self).is_stopped() {
                Errno::Eintr
            } else if msg.update_type == MsgUpdateHandleType::MsgHandleAdd || old(
                self,
            )@.contains_key(msg.handle.ino) {
                Errno::Esucc
            } else {
                Errno::Enoent
            },
            final(self)@ == if old(self).is_stopped() {
                old(self)@
            } else if msg.update_type == MsgUpdateHandleType::MsgHandleAdd {
                old(self)@.insert(msg.handle.ino, msg.handle@)
            } else {
                old(self)@.remove(msg.handle.ino)
            },
    {
        match msg.update_type {
            MsgUpdateHandleType::MsgHandleAdd => {
                if self.stopped {
                    return Errno::Eintr;
                }
                self.add(&msg.handle);
                Errno::Esucc
            },
            MsgUpdateHandleType::MsgHandleDel => self.del(msg.handle.ino),
        }
    }

    /// Refuses every later operation.
    pub fn stop(&mut self)
        requires
            old(self).wf(),
        ensures
            final(self).wf(),
            final(self).is_stopped(),
            final(self)@ == old(self)@,
    {
        self.stopped = true;
    }
}

/// The table after the blocks of `blocks` are added to segment
/// `(id0, id1)` of `ino` one by one, first to last.
pub open spec fn table_add_blocks(t: Table, ino: u64, id0: u64, id1: u64, blocks: Seq<Block>) -> Table
    decreases blocks.len(),
{
    if blocks.len() == 0 {
        t
    } else {
        table_add_block(
            table_add_blocks(t, ino, id0, id1, blocks.drop_last()),
            ino,
            id0,
            id1,
            blocks.last(),
        )
    }
}

/// Adding a block changes the blocks of one segment of one handle and
/// nothing else: the table has the same inodes, the handle the same
/// segments by name, and the segment found has the new block at its end.
pub proof fn lemma_add_block_frame(t: Table, ino: u64, id0: u64, id1: u64, b: Block)
    requires
        table_has_segment(t, ino, id0, id1),
    ensures
        ({
            let u = table_add_block(t, ino, id0, id1, b);
            let i = t[ino].find_segment(id0, id1).unwrap();
            &&& u.dom() == t.dom()
            &&& forall|k: u64| k != ino && t.contains_key(k) ==> u[k] == t[k]
            &&& u[ino].ino == t[ino].ino
            &&& u[ino].leader == t[ino].leader
            &&& u[ino].segments.len() == t[ino].segments.len()
            &&& 0 <= i < t[ino].segments.len()
            &&& u[ino].segments[i] == t[ino].segments[i].push_block(b)
            &&& forall|j: int|
                0 <= j < t[ino].segments.len() && j != i ==> u[ino].segments[j]
                    == t[ino].segments[j]
            &&& u[ino].find_segment(id0, id1) == Some(i)
        }),
{
    let u = table_add_block(t, ino, id0, id1, b);
    lemma_first_segment(t[ino].segments, id0, id1);
    lemma_first_segment_by_names(u[ino].segments, t[ino].segments, id0, id1);
    assert(u.dom() =~= t.dom());
}

/// Blocks added to a segment are found in it in the order in which they
/// were added, after the blocks that were there before.
pub proof fn lemma_add_blocks_keep_order(t: Table, ino: u64, id0: u64, id1: u64, blocks: Seq<Block>)
    requires
        table_has_segment(t, ino, id0, id1),
    ensures
        ({
            let u = table_add_blocks(t, ino, id0, id1, blocks);
            let i = t[ino].find_segment(id0, id1).unwrap();
            &&& table_has_segment(u, ino, id0, id1)
            &&& u[ino].find_segment(id0, id1) == Some(i)
            &&& u.dom() == t.dom()
            &&& u[ino].segments.len() == t[ino].segments.len()
            &&& 0 <= i < t[ino].segments.len()
            &&& u[ino].segments[i].blocks == t[ino].segments[i].blocks + blocks
            &&& forall|j: int|
                0 <= j < t[ino].segments.len() && j != i ==> u[ino].segments[j]
                    == t[ino].segments[j]
        }),
    decreases blocks.len(),
{
    let i = t[ino].find_segment(id0, id1).unwrap();
    lemma_first_segment(t[ino].segments, id0, id1);
    if blocks.len() == 0 {
        assert(t[ino].segments[i].blocks + blocks =~= t[ino].segments[i].blocks);
    } else {
        let mid = table_add_blocks(t, ino, id0, id1, blocks.drop_last());
        lemma_add_blocks_keep_order(t, ino, id0, id1, blocks.drop_last());
        lemma_add_block_frame(mid, ino, id0, id1, blocks.last());
        let u = table_add_blocks(t, ino, id0, id1, blocks);
        assert(u[ino].segments[i].blocks =~= t[ino].segments[i].blocks + blocks) by {
            assert(blocks.drop_last().push(blocks.last()) =~= blocks);
        }
    }
}

/// A block added to the tail segment of a handle comes last among all the
/// blocks of the handle.
pub proof fn lemma_add_block_to_tail(t: Table, ino: u64, id0: u64, id1: u64, b: Block)
    requires
        table_has_segment(t, ino, id0, id1),
        t[ino].find_segment(id0, id1) == Some(t[ino].segments.len() - 1),
    ensures
        all_blocks(table_add_block(t, ino, id0, id1, b)[ino].segments) == all_blocks(
            t[ino].segments,
        ).push(b),
{
    let u = table_add_block(t, ino, id0, id1, b);
    lemma_add_block_frame(t, ino, id0, id1, b);
    assert(u[ino].segments.drop_last() =~= t[ino].segments.drop_last());
    assert(all_blocks(u[ino].segments) =~= all_blocks(t[ino].segments).push(b));
}

} // verus!
