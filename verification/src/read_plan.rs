//! How a read walks the blocks of a file.
//!
//! The blocks are visited once each, segment after segment, in the order
//! in which they were recorded. A block that covers the current position is
//! read from; what the worker gives moves the position on.

use vstd::prelude::*;
use crate::disk_io::MsgFileReadData;
use crate::errno::Errno;
use crate::types::{Block, Segment, SegmentView};

verus! {

/// A block together with the name of the segment that holds it.
#[derive(Clone, Copy, Debug, PartialEq, Eq, Structural)]
pub struct ReadSlot {
    pub id0: u64,
    pub id1: u64,
    pub block: Block,
}

/// The blocks of `s` as slots.
pub open spec fn slots_of_segment(s: SegmentView) -> Seq<ReadSlot> {
    s.blocks.map_values(|b: Block| ReadSlot { id0: s.seg_id0, id1: s.seg_id1, block: b })
}

/// The blocks of `segments` as slots, segment after segment.
pub open spec fn slots_of(segments: Seq<SegmentView>) -> Seq<ReadSlot>
    decreases segments.len(),
{
    if segments.len() == 0 {
        Seq::<ReadSlot>::empty()
    } else {
        slots_of(segments.drop_last()) + slots_of_segment(segments.last())
    }
}

/// Whether file offset `start` lies in `b`, its two ends included.
pub open spec fn covers(b: Block, start: u64) -> bool {
    b.offset <= start && start <= b.offset + b.size
}

/// The first slot at or after `from` whose block covers `start`; the
/// number of slots if there is none.
pub open spec fn next_slot(slots: Seq<ReadSlot>, from: int, start: u64) -> int
    decreases slots.len() - from,
{
    if from < 0 || from >= slots.len() {
        slots.len() as int
    } else if covers(slots[from].block, start) {
        from
    } else {
        next_slot(slots, from + 1, start)
    }
}

/// A read in progress: the slots of the file, the next one to look at, the
/// file offset to read from, how many bytes are still wanted, and the bytes
/// read so far.
pub struct ReadState {
    pub slots: Vec<ReadSlot>,
    pub next: usize,
    pub start: u64,
    pub remaining: u32,
    pub data: Vec<u8>,
}

/// The mathematical value of a [`ReadState`].
pub struct ReadStateView {
    pub slots: Seq<ReadSlot>,
    pub next: int,
    pub start: u64,
    pub remaining: u32,
    pub data: Seq<u8>,
}

impl View for ReadState {
    type V = ReadStateView;

    open spec fn view(&self) -> ReadStateView {
        ReadStateView {
            slots: self.slots@,
            next: self.next as int,
            start: self.start,
            remaining: self.remaining,
            data: self.data@,
        }
    }
}

/// What a read does next.
pub enum ReadNext {
    /// Read `size` bytes at `seg_offset` of the segment of `slot`.
    Fetch { slot: ReadSlot, seg_offset: u64, size: u32 },
    /// The read is over.
    Done(Result<Seq<u8>, Errno>),
}

/// Where in its segment the file offset `start` of block `b` lies.
pub open spec fn seg_offset_of(b: Block, start: u64) -> int {
    b.seg_start_addr + (start - b.offset)
}

/// How many bytes to ask of block `b` when `remaining` are wanted: the
/// whole block or what is wanted, whichever is less.
pub open spec fn bytes_to_ask(b: Block, remaining: u32) -> int {
    if remaining <= b.size {
        remaining as int
    } else {
        b.size as int
    }
}

/// Moves on to the next block that covers the current position and asks
/// for its bytes; with no such block left the read is over with what it
/// has. A block whose position in the segment does not fit in 64 bits ends
/// the read with `Eintr`.
pub open spec fn read_advance(st: ReadStateView) -> (ReadStateView, ReadNext) {
    let k = next_slot(st.slots, st.next, st.start);
    if k >= st.slots.len() {
        (ReadStateView { next: st.slots.len() as int, ..st }, ReadNext::Done(Ok(st.data)))
    } else {
        let b = st.slots[k].block;
        if seg_offset_of(b, st.start) > u64::MAX {
            (ReadStateView { next: k, ..st }, ReadNext::Done(Err(Errno::Eintr)))
        } else {
            (
                ReadStateView { next: k + 1, ..st },
                ReadNext::Fetch {
                    slot: st.slots[k],
                    seg_offset: seg_offset_of(b, st.start) as u64,
                    size: bytes_to_ask(b, st.remaining) as u32,
                },
            )
        }
    }
}

/// The read after the bytes `d` arrived: they are appended, the position
/// moves past them and fewer bytes are wanted.
pub open spec fn read_accept(st: ReadStateView, d: Seq<u8>) -> ReadStateView {
    ReadStateView {
        start: (st.start + d.len()) as u64,
        remaining: (st.remaining - d.len()) as u32,
        data: st.data + d,
        ..st
    }
}

/// Whether the bytes `d` can be accepted: no more than are wanted, and the
/// position after them fits in 64 bits.
pub open spec fn acceptable(st: ReadStateView, d: Seq<u8>) -> bool {
    d.len() <= st.remaining && st.start + d.len() <= u64::MAX
}

/// What a read does after a worker's answer. `None` stands for an answer
/// that never came; it counts as no bytes. End of file ends the read with
/// what it has, any other error ends it with that error. After bytes
/// arrived, the read is over when nothing more is wanted, and moves on to
/// the next block otherwise.
pub open spec fn read_after_reply(st: ReadStateView, reply: Option<(Errno, Option<Seq<u8>>)>) -> (
    ReadStateView,
    ReadNext,
) {
    match reply {
        Some((err, data)) => if err == Errno::Esucc {
            match data {
                Some(d) => if acceptable(st, d) {
                    read_continue(read_accept(st, d))
                } else {
                    (st, ReadNext::Done(Err(Errno::Eintr)))
                },
                None => read_continue(st),
            }
        } else if err == Errno::Eeof {
            (st, ReadNext::Done(Ok(st.data)))
        } else {
            (st, ReadNext::Done(Err(err)))
        },
        None => read_continue(st),
    }
}

/// Ends the read if nothing more is wanted, and moves on otherwise.
pub open spec fn read_continue(st: ReadStateView) -> (ReadStateView, ReadNext) {
    if st.remaining == 0 {
        (st, ReadNext::Done(Ok(st.data)))
    } else {
        read_advance(st)
    }
}

/// The slots of `segments`, segment after segment.
pub fn collect_slots(segments: &Vec<Segment>) -> (slots: Vec<ReadSlot>)
    ensures
        slots@ == slots_of(crate::file_handle::segment_views(segments@)),
{
    let ghost views = crate::file_handle::segment_views(segments@);
    let mut slots: Vec<ReadSlot> = Vec::new();
    let mut i: usize = 0;
    assert(views.subrange(0, 0) =~= Seq::<SegmentView>::empty());
    while i < segments.len()
        invariant
            i <= segments.len(),
            views == crate::file_handle::segment_views(segments@),
            slots@ == slots_of(views.subrange(0, i as int)),
        decreases segments.len() - i,
    {
        let seg = &segments[i];
        let ghost before = slots@;
        let mut j: usize = 0;
        while j < seg.blocks.len()
            invariant
                j <= seg.blocks.len(),
                slots@ == before + slots_of_segment(seg@).subrange(0, j as int),
            decreases seg.blocks.len() - j,
        {
            slots.push(ReadSlot { id0: seg.seg_id0, id1: seg.seg_id1, block: seg.blocks[j] });
            assert(slots@ =~= before + slots_of_segment(seg@).subrange(0, j as int + 1));
            j += 1;
        }
        proof {
            assert(slots_of_segment(seg@).subrange(0, j as int) =~= slots_of_segment(seg@));
            let upto = views.subrange(0, i as int + 1);
            assert(upto.drop_last() =~= views.subrange(0, i as int));
            assert(upto.last() == seg@);
        }
        i += 1;
    }
    assert(views.subrange(0, i as int) =~= views);
    slots
}

/// One move of a read: the state to keep and the bytes to ask for, or the
/// end of the read.
pub enum ReadMove {
    Fetch { state: ReadState, slot: ReadSlot, seg_offset: u64, size: u32 },
    Done(Result<Vec<u8>, Errno>),
}

impl ReadMove {
    /// Whether the move is the one that `planned` describes.
    pub open spec fn is(self, planned: (ReadStateView, ReadNext)) -> bool {
        match planned.1 {
            ReadNext::Fetch { slot, seg_offset, size } => self matches ReadMove::Fetch {
                state,
                slot: s,
                seg_offset: o,
                size: n,
            } && state@ == planned.0 && s == slot && o == seg_offset && n == size,
            ReadNext::Done(Ok(bytes)) => self matches ReadMove::Done(Ok(v)) && v@ == bytes,
            ReadNext::Done(Err(e)) => self matches ReadMove::Done(Err(d)) && d == e,
        }
    }
}

/// A worker's answer as plain values.
pub open spec fn reply_view(reply: Option<MsgFileReadData>) -> Option<(Errno, Option<Seq<u8>>)> {
    match reply {
        Some(r) => Some(
            (
                r.err,
                match r.data {
                    Some(d) => Some(d@),
                    None => None,
                },
            ),
        ),
        None => None,
    }
}

fn block_covers(b: &Block, start: u64) -> (r: bool)
    ensures
        r == covers(*b, start),
{
    b.offset <= start && (start as i128) <= (b.offset as i128) + (b.size as i128)
}

/// Skipping slots that do not cover `start` does not change which slot is
/// found next.
proof fn lemma_next_slot_skip(slots: Seq<ReadSlot>, from: int, start: u64)
    requires
        0 <= from < slots.len(),
        !covers(slots[from].block, start),
    ensures
        next_slot(slots, from, start) == next_slot(slots, from + 1, start),
{
}

/// Moves the read on to the next block that covers its position.
pub fn advance(st: ReadState) -> (m: ReadMove)
    ensures
        m.is(read_advance(st@)),
{
    let ghost given = st@;
    let mut st = st;
    let n = st.slots.len();
    let mut k: usize = if st.next < n {
        st.next
    } else {
        n
    };
    while k < n && !block_covers(&st.slots[k].block, st.start)
        invariant
            k <= n,
            n == st.slots.len(),
            st@ == given,
            next_slot(st.slots@, k as int, st.start) == next_slot(
                st.slots@,
                st.next as int,
                st.start,
            ),
        decreases n - k,
    {
        proof {
            lemma_next_slot_skip(st.slots@, k as int, st.start);
        }
        k += 1;
    }
    if k >= n {
        st.next = n;
        return ReadMove::Done(Ok(st.data));
    }
    let slot = st.slots[k];
    let b = slot.block;
    let seg_offset = match b.seg_start_addr.checked_add(st.start - b.offset) {
        Some(o) => o,
        None => {
            return ReadMove::Done(Err(Errno::Eintr));
        },
    };
    let size: u32 = if (st.remaining as i64) <= b.size {
        st.remaining
    } else {
        b.size as u32
    };
    st.next = k + 1;
    ReadMove::Fetch { state: st, slot, seg_offset, size }
}

/// Accounts for a worker's answer and moves the read on.
pub fn accept_reply(st: ReadState, reply: Option<MsgFileReadData>) -> (m: ReadMove)
    ensures
        m.is(read_after_reply(st@, reply_view(reply))),
{
    let mut st = st;
    match reply {
        Some(r) => {
            if r.err.is_success() {
                match r.data {
                    Some(d) => {
                        let mut d = d;
                        let l = d.len();
                        if l > st.remaining as usize || l as u64 > u64::MAX - st.start {
                            return ReadMove::Done(Err(Errno::Eintr));
                        }
                        st.remaining = st.remaining - l as u32;
                        st.start = st.start + l as u64;
                        st.data.append(&mut d);
                    },
                    None => {},
                }
            } else if r.err.is_eof() {
                return ReadMove::Done(Ok(st.data));
            } else {
                return ReadMove::Done(Err(r.err));
            }
        },
        None => {},
    }
    if st.remaining == 0 {
        ReadMove::Done(Ok(st.data))
    } else {
        advance(st)
    }
}

} // verus!
