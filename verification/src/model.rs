//! The leader together with what it talks to, as a model.
//!
//! The model puts the leader's steps, the rules of the disk workers and a
//! metadata service that keeps what it is given into one state, and runs
//! whole operations on it. The laws of this module are stated on these
//! runs.

use vstd::prelude::*;
use crate::disk_io::{
    disk_after_write, file_of, read_answer, write_answer, write_fits, Disk, MsgFileWriteResp,
};
use crate::errno::Errno;
use crate::file_handle::{all_blocks, first_segment, lemma_first_segment, FileHandleView};
use crate::handle_mgr::{
    lemma_add_block_frame, table_add_block, table_has_segment, table_tail, Table, TailSegment,
};
use crate::leader_local::{
    close_after_update, close_first, initial_read, open_after_reply, open_after_segments,
    open_first, opened_handle, table_after_close_first, table_after_open_reply,
    started_segment, table_after_segments, table_after_update, table_after_write_reply,
    write_after_reply, written_block, CloseNext, OpenNext, OpenStateView, WriteNext,
};
use crate::read_plan::{
    covers, next_slot, read_advance, read_after_reply, slots_of, slots_of_segment, ReadNext,
    ReadSlot, ReadStateView,
};
use crate::segment_mgr::{all_led_by, meta_of_segments, segments_of_meta};
use crate::types::{
    lemma_push_block_keeps_wf, lemma_segment_meta_round_trip, BlockIo, MetaSegmentView,
    SegmentView,
};

verus! {

/// What the metadata service keeps: the segment list of each file.
pub type Meta = Map<u64, Seq<MetaSegmentView>>;

/// The handle table of a leader, the files of the segments, and the
/// segment lists at the metadata service.
pub struct World {
    pub table: Table,
    pub disk: Disk,
    pub meta: Meta,
}

/// The segment list that the service gives for `ino`: the one it keeps, or
/// none for a file of which it keeps nothing.
pub open spec fn meta_segments(meta: Meta, ino: u64) -> Seq<MetaSegmentView> {
    if meta.contains_key(ino) {
        meta[ino]
    } else {
        Seq::<MetaSegmentView>::empty()
    }
}

/// The world as a leader that was just started finds it: the same disk
/// and the same metadata, and no open file.
pub open spec fn restarted(w: World) -> World {
    World { table: Table::empty(), ..w }
}

/// Runs the rest of an open of `ino` in which every worker opens its
/// segment: the table at the end, and the result.
pub open spec fn run_open_replies(t: Table, machine: Seq<char>, ino: u64, st: OpenStateView) -> (
    Table,
    Errno,
)
    decreases st.segments.len() - st.next,
{
    let after = table_after_open_reply(t, false, ino, machine, st, Some(Errno::Esucc));
    match open_after_reply(st, Some(Errno::Esucc)) {
        OpenNext::Open(next) => if next.next > st.next {
            run_open_replies(after, machine, ino, next)
        } else {
            (after, Errno::Eintr)
        },
        OpenNext::Done(e) => (after, e),
        OpenNext::FetchSegments => (after, Errno::Eintr),
    }
}

/// Runs an open of `ino` by the leader of `machine`.
pub open spec fn run_open(w: World, machine: Seq<char>, ino: u64) -> (World, Errno) {
    match open_first(w.table, false, ino) {
        OpenNext::FetchSegments => {
            let fetched = Ok::<Seq<MetaSegmentView>, Errno>(meta_segments(w.meta, ino));
            let t = table_after_segments(w.table, false, ino, machine, fetched);
            match open_after_segments(ino, machine, fetched) {
                OpenNext::Open(st) => {
                    let (after, e) = run_open_replies(t, machine, ino, st);
                    (World { table: after, ..w }, e)
                },
                OpenNext::Done(e) => (World { table: t, ..w }, e),
                OpenNext::FetchSegments => (w, Errno::Eintr),
            }
        },
        OpenNext::Done(e) => (w, e),
        OpenNext::Open(_) => (w, Errno::Eintr),
    }
}

/// When every worker opens its segment, the open ends well with the
/// handle of all the segments in the table.
pub proof fn lemma_run_open_replies(t: Table, machine: Seq<char>, ino: u64, st: OpenStateView)
    requires
        0 <= st.next < st.segments.len(),
    ensures
        run_open_replies(t, machine, ino, st) == (
            t.insert(ino, opened_handle(ino, machine, st.segments)),
            Errno::Esucc,
        ),
    decreases st.segments.len() - st.next,
{
    if st.next + 1 < st.segments.len() {
        lemma_run_open_replies(t, machine, ino, OpenStateView { next: st.next + 1, ..st });
    }
}

/// An open of a file that is not open, whose segments at the metadata
/// service are all led by this machine, ends well; afterwards the table
/// holds the handle with those segments, and nothing else has changed.
pub proof fn lemma_run_open(w: World, machine: Seq<char>, ino: u64)
    requires
        !w.table.contains_key(ino),
        all_led_by(meta_segments(w.meta, ino), machine),
    ensures
        run_open(w, machine, ino) == (
            World {
                table: w.table.insert(
                    ino,
                    opened_handle(ino, machine, segments_of_meta(ino, meta_segments(w.meta, ino))),
                ),
                ..w
            },
            Errno::Esucc,
        ),
{
    let metas = meta_segments(w.meta, ino);
    if metas.len() > 0 {
        lemma_run_open_replies(
            w.table,
            machine,
            ino,
            OpenStateView { segments: segments_of_meta(ino, metas), next: 0 },
        );
    } else {
        assert(segments_of_meta(ino, metas) =~= Seq::<SegmentView>::empty());
    }
}

/// Opening a file a second time changes nothing: an open of a file that
/// is open ends well at its first step and leaves the world as it is. So
/// two opens in a row leave the world as one does.
pub proof fn lemma_open_twice(w: World, machine: Seq<char>, ino: u64)
    requires
        run_open(w, machine, ino).1 == Errno::Esucc,
    ensures
        run_open(run_open(w, machine, ino).0, machine, ino) == (
            run_open(w, machine, ino).0,
            Errno::Esucc,
        ),
{
    if !w.table.contains_key(ino) {
        if all_led_by(meta_segments(w.meta, ino), machine) {
            lemma_run_open(w, machine, ino);
        }
    }
}

/// What the worker that owns the segment `tail` does with a request to
/// append `data`: the disk afterwards, and the answer.
pub open spec fn worker_write(disk: Disk, tail: TailSegment, data: Seq<u8>) -> (
    Disk,
    MsgFileWriteResp,
) {
    (
        disk_after_write(disk, tail.id0, tail.id1, tail.max_size, data),
        write_answer(
            tail.id0,
            tail.id1,
            file_of(disk, tail.id0, tail.id1).len() as u64,
            data.len() as u32,
            tail.max_size,
        ),
    )
}

/// Runs a write of `data` at file offset `offset` of `ino` from the
/// request to the segment `tail` on. Segments that have to be started are
/// named by `fresh`, first to last; the run gives up with `Enospc` when it
/// needs a name and none is left.
pub open spec fn run_write_on(
    w: World,
    machine: Seq<char>,
    segment_size: u64,
    ino: u64,
    offset: u64,
    data: Seq<u8>,
    tail: TailSegment,
    fresh: Seq<(u64, u64)>,
) -> (World, Result<BlockIo, Errno>)
    decreases fresh.len(),
{
    let (disk, reply) = worker_write(w.disk, tail, data);
    if reply.err == Errno::Enospc && fresh.len() == 0 {
        (w, Err(Errno::Enospc))
    } else {
        let seg = started_segment(
            if fresh.len() > 0 {
                fresh[0]
            } else {
                (0, 0)
            },
            machine,
            segment_size,
        );
        let after = World {
            table: table_after_write_reply(
                w.table,
                false,
                ino,
                offset,
                tail.id0,
                tail.id1,
                Some(reply),
                seg,
            ),
            disk,
            meta: w.meta,
        };
        match write_after_reply(w.table, false, ino, tail.id0, tail.id1, Some(reply), seg) {
            WriteNext::Done(r) => (after, r),
            WriteNext::Retry(next) => if fresh.len() > 0 {
                run_write_on(after, machine, segment_size, ino, offset, data, next, fresh.skip(1))
            } else {
                (w, Err(Errno::Enospc))
            },
        }
    }
}

/// Runs a write of `data` at file offset `offset` of `ino`.
pub open spec fn run_write(
    w: World,
    machine: Seq<char>,
    segment_size: u64,
    ino: u64,
    offset: u64,
    data: Seq<u8>,
    fresh: Seq<(u64, u64)>,
) -> (World, Result<BlockIo, Errno>) {
    match table_tail(w.table, ino) {
        Some(tail) => run_write_on(w, machine, segment_size, ino, offset, data, tail, fresh),
        None => (w, Err(Errno::Enoent)),
    }
}

/// Runs a close of `ino` with a metadata service that takes the segment
/// list.
pub open spec fn run_close(w: World, workers: u32, ino: u64) -> (World, Errno) {
    match close_first(w.table, false, ino) {
        CloseNext::Update(metas) => {
            let after = World {
                table: table_after_update(w.table, false, ino, Errno::Esucc),
                disk: w.disk,
                meta: w.meta.insert(ino, metas),
            };
            match close_after_update(w.table, false, workers, ino, Errno::Esucc) {
                CloseNext::Finish { closes, result } => (after, result),
                CloseNext::Update(_) => (after, Errno::Eintr),
            }
        },
        CloseNext::Finish { closes, result } => (
            World { table: table_after_close_first(w.table, false, ino), ..w },
            result,
        ),
    }
}

/// What the worker that owns the segment of `slot` answers to a read of
/// `size` bytes at `seg_offset`.
pub open spec fn worker_read(disk: Disk, slot: ReadSlot, seg_offset: u64, size: u32) -> Option<
    (Errno, Option<Seq<u8>>),
> {
    match read_answer(file_of(disk, slot.id0, slot.id1), seg_offset, size) {
        Some(bytes) => Some((Errno::Esucc, Some(bytes))),
        None => Some((Errno::Eeof, None)),
    }
}

/// Runs a read from the step `planned` on, for at most `fuel` requests.
pub open spec fn run_read_steps(disk: Disk, planned: (ReadStateView, ReadNext), fuel: nat)
    -> Result<Seq<u8>, Errno>
    decreases fuel,
{
    match planned.1 {
        ReadNext::Done(r) => r,
        ReadNext::Fetch { slot, seg_offset, size } => if fuel == 0 {
            Err(Errno::Eintr)
        } else {
            run_read_steps(
                disk,
                read_after_reply(planned.0, worker_read(disk, slot, seg_offset, size)),
                (fuel - 1) as nat,
            )
        },
    }
}

/// Runs a read of `size` bytes at file offset `offset` of `ino`. No read
/// makes more requests than the file has blocks.
pub open spec fn run_read(w: World, ino: u64, offset: u64, size: u32) -> Result<Seq<u8>, Errno> {
    if w.table.contains_key(ino) {
        let st = initial_read(w.table[ino], offset, size);
        run_read_steps(w.disk, read_advance(st), st.slots.len())
    } else {
        Err(Errno::Enoent)
    }
}

/// Whether the handle `h` can be committed and found again by the leader
/// of `machine`: it is the handle of `ino` on that machine, it has a
/// segment, and each segment is led by the machine and holds blocks of
/// `ino` only.
pub open spec fn committable(h: FileHandleView, machine: Seq<char>, ino: u64) -> bool {
    &&& h.ino == ino
    &&& h.leader == machine
    &&& h.segments.len() > 0
    &&& forall|i: int|
        0 <= i < h.segments.len() ==> (#[trigger] h.segments[i]).leader == machine
            && h.segments[i].owned_by(ino)
}

/// What a close commits is what the next open finds: after the close of a
/// committable handle, an open by a leader that was just started ends well
/// with the same handle in its table, and every read gives what it gave
/// before the close.
pub proof fn lemma_close_persists(
    w: World,
    machine: Seq<char>,
    workers: u32,
    ino: u64,
    offset: u64,
    size: u32,
)
    requires
        w.table.contains_key(ino),
        committable(w.table[ino], machine, ino),
    ensures
        run_close(w, workers, ino).1 == Errno::Esucc,
        !run_close(w, workers, ino).0.table.contains_key(ino),
        run_close(w, workers, ino).0.disk == w.disk,
        ({
            let closed = restarted(run_close(w, workers, ino).0);
            let (reopened, e) = run_open(closed, machine, ino);
            &&& e == Errno::Esucc
            &&& reopened.table.contains_key(ino)
            &&& reopened.table[ino] == w.table[ino]
            &&& reopened.disk == w.disk
            &&& run_read(reopened, ino, offset, size) == run_read(w, ino, offset, size)
        }),
{
    let h = w.table[ino];
    let metas = meta_of_segments(h.segments);
    let closed = restarted(run_close(w, workers, ino).0);
    assert(meta_segments(closed.meta, ino) == metas);
    assert(all_led_by(metas, machine)) by {
        assert forall|i: int| 0 <= i < metas.len() implies (#[trigger] metas[i]).leader
            == machine by {
            assert(h.segments[i].leader == machine);
        }
    }
    assert(segments_of_meta(ino, metas) =~= h.segments) by {
        assert forall|i: int| 0 <= i < h.segments.len() implies segments_of_meta(ino, metas)[i]
            == h.segments[i] by {
            assert(h.segments[i].owned_by(ino));
            lemma_segment_meta_round_trip(ino, h.segments[i]);
        }
    }
    lemma_run_open(closed, machine, ino);
}

/// Segments without blocks give no slots.
pub proof fn lemma_no_blocks_no_slots(segments: Seq<SegmentView>)
    requires
        forall|i: int| 0 <= i < segments.len() ==> (#[trigger] segments[i]).blocks.len() == 0,
    ensures
        slots_of(segments) == Seq::<ReadSlot>::empty(),
    decreases segments.len(),
{
    if segments.len() > 0 {
        let front = segments.drop_last();
        assert forall|i: int| 0 <= i < front.len() implies (#[trigger] front[i]).blocks.len()
            == 0 by {
            assert(segments[i].blocks.len() == 0);
        }
        lemma_no_blocks_no_slots(front);
        assert(segments.last() == segments[segments.len() - 1]);
        assert(slots_of_segment(segments.last()) =~= Seq::<ReadSlot>::empty());
        assert(slots_of(segments) =~= Seq::<ReadSlot>::empty());
    }
}

/// A read of exactly the bytes of the only block of a file gives the bytes
/// that the segment file holds at the block's place.
pub proof fn lemma_read_single_block(w: World, ino: u64, slot: ReadSlot)
    requires
        w.table.contains_key(ino),
        slots_of(w.table[ino].segments) == seq![slot],
        slot.block.offset == 0,
        0 < slot.block.size <= u32::MAX,
        slot.block.seg_start_addr + slot.block.size <= file_of(w.disk, slot.id0, slot.id1).len(),
        slot.block.seg_start_addr + slot.block.size <= u64::MAX,
    ensures
        run_read(w, ino, 0, slot.block.size as u32) == Ok::<Seq<u8>, Errno>(
            file_of(w.disk, slot.id0, slot.id1).subrange(
                slot.block.seg_start_addr as int,
                slot.block.seg_start_addr + slot.block.size,
            ),
        ),
{
    let b = slot.block;
    let size = b.size as u32;
    let st = initial_read(w.table[ino], 0, size);
    let file = file_of(w.disk, slot.id0, slot.id1);
    let bytes = file.subrange(b.seg_start_addr as int, b.seg_start_addr + b.size);
    assert(st.slots[0] == slot);
    assert(covers(b, 0));
    assert(next_slot(st.slots, 0, 0) == 0);
    let planned = read_advance(st);
    assert(planned.1 == ReadNext::Fetch { slot, seg_offset: b.seg_start_addr, size });
    let reply = worker_read(w.disk, slot, b.seg_start_addr, size);
    assert(reply == Some((Errno::Esucc, Some(bytes))));
    let after = read_after_reply(planned.0, reply);
    assert(Seq::<u8>::empty() + bytes =~= bytes);
    assert(after.1 == ReadNext::Done(Ok(bytes)));
    assert(run_read_steps(w.disk, after, 0) == Ok::<Seq<u8>, Errno>(bytes));
    assert(st.slots.len() == 1);
    assert(run_read_steps(w.disk, planned, 1) == run_read_steps(w.disk, after, 0));
}

/// Whether file `ino` is ready for a first write by the leader of
/// `machine`: the metadata service keeps at least one segment for it, all
/// led by the machine and none with a block, and the name of the last
/// segment is not the name of an earlier one.
pub open spec fn empty_file(meta: Meta, machine: Seq<char>, ino: u64) -> bool {
    let metas = meta_segments(meta, ino);
    &&& metas.len() > 0
    &&& all_led_by(metas, machine)
    &&& forall|i: int| 0 <= i < metas.len() ==> (#[trigger] metas[i]).blocks.len() == 0
    &&& first_segment(
        segments_of_meta(ino, metas),
        metas.last().seg_id0,
        metas.last().seg_id1,
    ) == Some(metas.len() - 1)
}

/// Written bytes are read back after a close: on an empty file whose last
/// segment has room for `data`, the run open, write `data` at offset 0,
/// close, open on a leader that was just started, read `data.len()` bytes
/// at offset 0 ends well at every step and reads `data`.
pub proof fn lemma_write_read_round_trip(
    w: World,
    machine: Seq<char>,
    segment_size: u64,
    workers: u32,
    ino: u64,
    data: Seq<u8>,
)
    requires
        !w.table.contains_key(ino),
        empty_file(w.meta, machine, ino),
        0 < data.len() <= u32::MAX,
        write_fits(
            file_of(
                w.disk,
                meta_segments(w.meta, ino).last().seg_id0,
                meta_segments(w.meta, ino).last().seg_id1,
            ).len(),
            data.len(),
            meta_segments(w.meta, ino).last().max_size,
        ),
    ensures
        ({
            let (w1, e1) = run_open(w, machine, ino);
            let (w2, r2) = run_write(w1, machine, segment_size, ino, 0, data, Seq::empty());
            let (w3, e3) = run_close(w2, workers, ino);
            let (w4, e4) = run_open(restarted(w3), machine, ino);
            &&& e1 == Errno::Esucc
            &&& r2 is Ok
            &&& e3 == Errno::Esucc
            &&& e4 == Errno::Esucc
            &&& run_read(w2, ino, 0, data.len() as u32) == Ok::<Seq<u8>, Errno>(data)
            &&& run_read(w4, ino, 0, data.len() as u32) == Ok::<Seq<u8>, Errno>(data)
        }),
{
    let metas = meta_segments(w.meta, ino);
    let segs = segments_of_meta(ino, metas);
    let k = metas.len() - 1;
    let id0 = metas.last().seg_id0;
    let id1 = metas.last().seg_id1;
    let max_size = metas.last().max_size;
    let file = file_of(w.disk, id0, id1);
    let cur = file.len() as u64;
    let len = data.len() as u32;

    lemma_run_open(w, machine, ino);
    let (w1, e1) = run_open(w, machine, ino);
    let h1 = w1.table[ino];
    assert(h1.segments == segs);
    assert(segs.last() == SegmentView::of_meta(ino, metas[k]));
    let tail = TailSegment { id0, id1, max_size };
    assert(table_tail(w1.table, ino) == Some(tail));

    let b = written_block(ino, 0, cur, len);
    let reply = write_answer(id0, id1, cur, len, max_size);
    assert(reply.err == Errno::Esucc);
    assert(table_has_segment(w1.table, ino, id0, id1));
    lemma_add_block_frame(w1.table, ino, id0, id1, b);
    let (w2, r2) = run_write(w1, machine, segment_size, ino, 0, data, Seq::empty());
    assert(r2 is Ok);
    assert(w2.table == table_add_block(w1.table, ino, id0, id1, b));
    assert(w2.disk == w.disk.insert((id0, id1), file + data));
    let h2 = w2.table[ino];

    assert forall|i: int| 0 <= i < segs.len() implies (#[trigger] segs[i]).blocks.len() == 0
        && segs[i].leader == machine by {
        assert(metas[i].blocks.len() == 0);
        assert(metas[i].leader == machine);
    }
    assert(h2.segments[k].blocks =~= seq![b]);
    assert(committable(h2, machine, ino)) by {
        assert forall|i: int| 0 <= i < h2.segments.len() implies (#[trigger] h2.segments[i]).leader
            == machine && h2.segments[i].owned_by(ino) by {
            if i != k {
                assert(h2.segments[i] == segs[i]);
            }
        }
    }
    lemma_close_persists(w2, machine, workers, ino, 0, len);

    let slot = ReadSlot { id0, id1, block: b };
    assert(slots_of(h2.segments) =~= seq![slot]) by {
        let front = h2.segments.drop_last();
        assert forall|i: int| 0 <= i < front.len() implies (#[trigger] front[i]).blocks.len()
            == 0 by {
            assert(h2.segments[i] == segs[i]);
        }
        lemma_no_blocks_no_slots(front);
        assert(h2.segments.last() == h2.segments[k]);
        assert(slots_of_segment(h2.segments.last()) =~= seq![slot]);
    }
    assert(file_of(w2.disk, id0, id1) == file + data);
    lemma_read_single_block(w2, ino, slot);
    assert((file + data).subrange(cur as int, cur + len) =~= data);
}

/// Whether the file of segment `s` ends where the last block of `s` ends.
/// A segment without blocks asks nothing of its file but a length that
/// fits in 64 bits.
pub open spec fn segment_settled(disk: Disk, s: SegmentView) -> bool {
    let file = file_of(disk, s.seg_id0, s.seg_id1);
    &&& file.len() <= u64::MAX
    &&& s.blocks.len() > 0 ==> s.tail_end() == file.len()
}

/// Whether the open file `ino` is in order: each of its segments holds the
/// segment invariant, and its tail, if it has one, is the first segment of
/// its name and is settled on disk.
pub open spec fn file_settled(w: World, ino: u64) -> bool {
    &&& w.table.contains_key(ino)
    &&& forall|i: int|
        0 <= i < w.table[ino].segments.len() ==> (#[trigger] w.table[ino].segments[i]).wf()
    &&& w.table[ino].segments.len() > 0 ==> {
        let s = w.table[ino].segments.last();
        &&& first_segment(w.table[ino].segments, s.seg_id0, s.seg_id1) == Some(
            w.table[ino].segments.len() - 1,
        )
        &&& segment_settled(w.disk, s)
    }
}

/// Whether the names `fresh` can be given to new segments of a file with
/// the segments `segments`: no name is used twice, none is the name of a
/// segment of the file, and the file of each has a length that fits in 64
/// bits.
pub open spec fn fresh_names(disk: Disk, segments: Seq<SegmentView>, fresh: Seq<(u64, u64)>)
    -> bool {
    &&& forall|i: int, j: int| 0 <= i < j < fresh.len() ==> fresh[i] != fresh[j]
    &&& forall|i: int, j: int|
        0 <= i < fresh.len() && 0 <= j < segments.len() ==> #[trigger] fresh[i] != (
            (#[trigger] segments[j]).seg_id0,
            segments[j].seg_id1,
        )
    &&& forall|i: int|
        0 <= i < fresh.len() ==> file_of(disk, (#[trigger] fresh[i]).0, fresh[i].1).len()
            <= u64::MAX
}

/// A name that no segment has is found in the first place after them.
proof fn lemma_first_segment_of_new_name(segments: Seq<SegmentView>, s: SegmentView)
    requires
        forall|j: int|
            0 <= j < segments.len() ==> (s.seg_id0, s.seg_id1) != (
                (#[trigger] segments[j]).seg_id0,
                segments[j].seg_id1,
            ),
    ensures
        first_segment(segments.push(s), s.seg_id0, s.seg_id1) == Some(segments.len() as int),
{
    let all = segments.push(s);
    assert(all.drop_last() =~= segments);
    lemma_first_segment(segments, s.seg_id0, s.seg_id1);
    match first_segment(segments, s.seg_id0, s.seg_id1) {
        Some(i) => {
            assert((s.seg_id0, s.seg_id1) != (segments[i].seg_id0, segments[i].seg_id1));
        },
        None => {},
    }
}

/// A write keeps an open file in order, whether it goes to the tail or to
/// segments started on the way: afterwards each segment of the file still
/// holds the segment invariant, so its blocks lie end to end and fit in its
/// capacity. A write that ends well adds exactly one block, the last of all
/// the blocks of the file, and the handles of other files stay as they are.
pub proof fn lemma_write_keeps_file_settled(
    w: World,
    machine: Seq<char>,
    segment_size: u64,
    ino: u64,
    offset: u64,
    data: Seq<u8>,
    tail: TailSegment,
    fresh: Seq<(u64, u64)>,
)
    requires
        file_settled(w, ino),
        table_tail(w.table, ino) == Some(tail),
        fresh_names(w.disk, w.table[ino].segments, fresh),
        0 < data.len() <= u32::MAX,
    ensures
        ({
            let (after, r) = run_write_on(
                w,
                machine,
                segment_size,
                ino,
                offset,
                data,
                tail,
                fresh,
            );
            &&& file_settled(after, ino)
            &&& after.table.dom() == w.table.dom()
            &&& forall|k: u64| k != ino && w.table.contains_key(k) ==> after.table[k] == w.table[k]
            &&& r matches Ok(io) ==> all_blocks(after.table[ino].segments) == all_blocks(
                w.table[ino].segments,
            ).push(written_block(ino, offset, io.offset, io.size))
            &&& r is Err ==> all_blocks(after.table[ino].segments) == all_blocks(
                w.table[ino].segments,
            )
        }),
    decreases fresh.len(),
{
    let segs = w.table[ino].segments;
    let k = segs.len() - 1;
    let s = segs.last();
    let file = file_of(w.disk, tail.id0, tail.id1);
    let cur = file.len() as u64;
    let len = data.len() as u32;
    let (disk, reply) = worker_write(w.disk, tail, data);
    if reply.err == Errno::Enospc && fresh.len() == 0 {
    } else if reply.err == Errno::Esucc {
        let b = written_block(ino, offset, cur, len);
        let seg = started_segment((0, 0), machine, segment_size);
        assert(table_has_segment(w.table, ino, tail.id0, tail.id1));
        lemma_add_block_frame(w.table, ino, tail.id0, tail.id1, b);
        let after = table_add_block(w.table, ino, tail.id0, tail.id1, b);
        lemma_push_block_keeps_wf(s, b);
        assert(after[ino].segments.last() == s.push_block(b));
        assert forall|i: int| 0 <= i < after[ino].segments.len() implies (
        #[trigger] after[ino].segments[i]).wf() by {
            if i != k {
                assert(segs[i].wf());
            }
        }
        assert(file_of(disk, tail.id0, tail.id1) == file + data);
        assert(after[ino].segments.drop_last() =~= segs.drop_last());
        assert(all_blocks(after[ino].segments) =~= all_blocks(segs).push(b));
    } else {
        let seg = started_segment(fresh[0], machine, segment_size);
        let t = w.table.insert(ino, w.table[ino].push_segment(seg));
        let next = World { table: t, disk, meta: w.meta };
        let next_tail = TailSegment { id0: seg.seg_id0, id1: seg.seg_id1, max_size: seg.max_size };
        assert(disk == w.disk);
        assert(t.dom() =~= w.table.dom());
        lemma_first_segment_of_new_name(segs, seg);
        assert(file_settled(next, ino)) by {
            assert forall|i: int| 0 <= i < t[ino].segments.len() implies (
            #[trigger] t[ino].segments[i]).wf() by {
                if i < segs.len() {
                    assert(segs[i].wf());
                }
            }
        }
        assert(fresh_names(disk, t[ino].segments, fresh.skip(1))) by {
            let rest = fresh.skip(1);
            assert forall|i: int, j: int|
                0 <= i < rest.len() && 0 <= j < t[ino].segments.len() implies #[trigger] rest[i]
                != ((#[trigger] t[ino].segments[j]).seg_id0, t[ino].segments[j].seg_id1) by {
                assert(rest[i] == fresh[i + 1]);
                if j < segs.len() {
                    assert(fresh[i + 1] != (segs[j].seg_id0, segs[j].seg_id1));
                }
            }
            assert forall|i: int| 0 <= i < rest.len() implies file_of(
                disk,
                (#[trigger] rest[i]).0,
                rest[i].1,
            ).len() <= u64::MAX by {
                assert(rest[i] == fresh[i + 1]);
            }
        }
        lemma_write_keeps_file_settled(
            next,
            machine,
            segment_size,
            ino,
            offset,
            data,
            next_tail,
            fresh.skip(1),
        );
        assert(t[ino].segments.drop_last() =~= segs);
        assert(all_blocks(t[ino].segments) =~= all_blocks(segs));
    }
}

/// The bytes that the disk holds at the place of the block of `slot`.
pub open spec fn stored(disk: Disk, slot: ReadSlot) -> Seq<u8> {
    file_of(disk, slot.id0, slot.id1).subrange(
        slot.block.seg_start_addr as int,
        slot.block.seg_end_addr as int,
    )
}

/// Whether the block of `slot` is well formed, ends within 64 bits of file
/// offset, and lies within the file of its segment.
pub open spec fn slot_on_disk(disk: Disk, slot: ReadSlot) -> bool {
    &&& slot.block.wf()
    &&& slot.block.file_end() <= u64::MAX
    &&& slot.block.seg_end_addr <= file_of(disk, slot.id0, slot.id1).len()
}

/// Whether the blocks of `slots` cover a file front to back: the first
/// starts at file offset 0, each next one starts where the one before it
/// ends, and each is on disk.
pub open spec fn front_to_back(disk: Disk, slots: Seq<ReadSlot>) -> bool {
    &&& forall|i: int| 0 <= i < slots.len() ==> slot_on_disk(disk, #[trigger] slots[i])
    &&& slots.len() > 0 ==> slots[0].block.offset == 0
    &&& forall|i: int|
        0 <= i && i + 1 < slots.len() ==> (#[trigger] slots[i]).block.file_end() == slots[i
            + 1].block.offset
}

/// The bytes of the blocks of `slots` from slot `from` on, in order.
pub open spec fn content_from(disk: Disk, slots: Seq<ReadSlot>, from: int) -> Seq<u8>
    decreases slots.len() - from,
{
    if from < 0 || from >= slots.len() {
        Seq::<u8>::empty()
    } else {
        stored(disk, slots[from]) + content_from(disk, slots, from + 1)
    }
}

/// The bytes of a file whose blocks are `slots`.
pub open spec fn content(disk: Disk, slots: Seq<ReadSlot>) -> Seq<u8> {
    content_from(disk, slots, 0)
}

/// A read that stands at the start of block `st.next` of a file laid out
/// front to back, and wants no more bytes than the blocks from there on
/// hold, ends well with the bytes it had and the bytes it wanted.
pub proof fn lemma_read_from_block(disk: Disk, st: ReadStateView, fuel: nat)
    requires
        front_to_back(disk, st.slots),
        0 <= st.next <= st.slots.len(),
        st.next < st.slots.len() ==> st.start == st.slots[st.next].block.offset,
        st.remaining <= content_from(disk, st.slots, st.next).len(),
        fuel >= st.slots.len() - st.next,
    ensures
        run_read_steps(disk, read_advance(st), fuel) == Ok::<Seq<u8>, Errno>(
            st.data + content_from(disk, st.slots, st.next).take(st.remaining as int),
        ),
    decreases st.slots.len() - st.next,
{
    let k = st.next;
    let all = content_from(disk, st.slots, k);
    if k == st.slots.len() {
        assert(st.data + all.take(st.remaining as int) =~= st.data);
    } else {
        let slot = st.slots[k];
        let b = slot.block;
        assert(slot_on_disk(disk, slot));
        assert(covers(b, st.start));
        assert(next_slot(st.slots, k, st.start) == k);
        let ask = if st.remaining <= b.size {
            st.remaining
        } else {
            b.size as u32
        };
        let planned = read_advance(st);
        assert(planned.1 == ReadNext::Fetch { slot, seg_offset: b.seg_start_addr, size: ask });
        let file = file_of(disk, slot.id0, slot.id1);
        let bytes = file.subrange(b.seg_start_addr as int, b.seg_start_addr + ask);
        let reply = worker_read(disk, slot, b.seg_start_addr, ask);
        assert(reply == Some((Errno::Esucc, Some(bytes))));
        let here = stored(disk, slot);
        let later = content_from(disk, st.slots, k + 1);
        assert(all == here + later);
        assert(here.len() == b.size);
        assert(bytes =~= here.take(ask as int));
        let st1 = ReadStateView { next: k + 1, ..st };
        assert(planned.0 == st1);
        let st2 = crate::read_plan::read_accept(st1, bytes);
        if st2.remaining == 0 {
            assert(st.data + all.take(st.remaining as int) =~= st.data + bytes);
            assert(read_after_reply(planned.0, reply).1 == ReadNext::Done(Ok(st2.data)));
            assert(run_read_steps(disk, read_after_reply(planned.0, reply), (fuel - 1) as nat)
                == Ok::<Seq<u8>, Errno>(st2.data));
        } else {
            assert(ask == b.size);
            assert(bytes =~= here);
            if k + 1 < st.slots.len() {
                assert(st.slots[k].block.file_end() == st.slots[k + 1].block.offset);
            } else {
                assert(later.len() == 0);
            }
            assert(read_after_reply(planned.0, reply) == read_advance(st2));
            lemma_read_from_block(disk, st2, (fuel - 1) as nat);
            assert(st2.data + later.take(st2.remaining as int) =~= st.data + all.take(
                st.remaining as int,
            ));
        }
    }
}

/// A file laid out front to back reads back whole: a read at offset 0 of
/// no more bytes than the file holds gives that many of its first bytes.
pub proof fn lemma_read_front_to_back(w: World, ino: u64, size: u32)
    requires
        w.table.contains_key(ino),
        front_to_back(w.disk, slots_of(w.table[ino].segments)),
        size <= content(w.disk, slots_of(w.table[ino].segments)).len(),
    ensures
        run_read(w, ino, 0, size) == Ok::<Seq<u8>, Errno>(
            content(w.disk, slots_of(w.table[ino].segments)).take(size as int),
        ),
{
    let st = initial_read(w.table[ino], 0, size);
    lemma_read_from_block(w.disk, st, st.slots.len());
    assert(st.data + content(w.disk, st.slots).take(size as int) =~= content(
        w.disk,
        st.slots,
    ).take(size as int));
}

/// The size of a file whose blocks are `slots`, laid out front to back:
/// where its last block ends.
pub open spec fn file_size(slots: Seq<ReadSlot>) -> int {
    if slots.len() == 0 {
        0
    } else {
        slots.last().block.file_end()
    }
}

/// The bytes of a file with one more block are the bytes of the file and
/// then the bytes of that block.
pub proof fn lemma_content_push(disk: Disk, slots: Seq<ReadSlot>, slot: ReadSlot, from: int)
    requires
        0 <= from <= slots.len(),
    ensures
        content_from(disk, slots.push(slot), from) == content_from(disk, slots, from) + stored(
            disk,
            slot,
        ),
    decreases slots.len() - from,
{
    let more = slots.push(slot);
    if from < slots.len() {
        lemma_content_push(disk, slots, slot, from + 1);
        assert(more[from] == slots[from]);
        assert(content_from(disk, more, from) =~= content_from(disk, slots, from) + stored(
            disk,
            slot,
        ));
    } else {
        assert(content_from(disk, more, from + 1) =~= Seq::<u8>::empty());
        assert(content_from(disk, more, from) =~= content_from(disk, slots, from) + stored(
            disk,
            slot,
        ));
    }
}

/// The bytes of a file depend on the bytes of its blocks alone.
pub proof fn lemma_content_same(a: Disk, b: Disk, slots: Seq<ReadSlot>, from: int)
    requires
        0 <= from <= slots.len(),
        forall|i: int| 0 <= i < slots.len() ==> stored(a, #[trigger] slots[i]) == stored(b, slots[i]),
    ensures
        content_from(a, slots, from) == content_from(b, slots, from),
    decreases slots.len() - from,
{
    if from < slots.len() {
        lemma_content_same(a, b, slots, from + 1);
    }
}

/// A file laid out front to back holds as many bytes as its size says.
pub proof fn lemma_content_len(disk: Disk, slots: Seq<ReadSlot>, from: int)
    requires
        front_to_back(disk, slots),
        0 <= from <= slots.len(),
    ensures
        content_from(disk, slots, from).len() == file_size(slots) - (if from < slots.len() {
            slots[from].block.offset as int
        } else {
            file_size(slots)
        }),
    decreases slots.len() - from,
{
    if from < slots.len() {
        lemma_content_len(disk, slots, from + 1);
        assert(slot_on_disk(disk, slots[from]));
        if from + 1 < slots.len() {
            assert(slots[from].block.file_end() == slots[from + 1].block.offset);
        }
    }
}

/// The slots of segments of which the last got one more block are the
/// slots of the segments and then the slot of that block.
pub proof fn lemma_slots_push_block(segments: Seq<SegmentView>, b: crate::types::Block)
    requires
        segments.len() > 0,
    ensures
        slots_of(segments.update(segments.len() - 1, segments.last().push_block(b))) == slots_of(
            segments,
        ).push(
            ReadSlot { id0: segments.last().seg_id0, id1: segments.last().seg_id1, block: b },
        ),
{
    let k = segments.len() - 1;
    let after = segments.update(k, segments.last().push_block(b));
    assert(after.drop_last() =~= segments.drop_last());
    assert(slots_of_segment(after.last()) =~= slots_of_segment(segments.last()).push(
        ReadSlot { id0: segments.last().seg_id0, id1: segments.last().seg_id1, block: b },
    ));
    assert(slots_of(after) =~= slots_of(segments).push(
        ReadSlot { id0: segments.last().seg_id0, id1: segments.last().seg_id1, block: b },
    ));
}

/// A segment without blocks adds no slot.
pub proof fn lemma_slots_push_empty_segment(segments: Seq<SegmentView>, s: SegmentView)
    requires
        s.blocks.len() == 0,
    ensures
        slots_of(segments.push(s)) == slots_of(segments),
{
    let after = segments.push(s);
    assert(after.drop_last() =~= segments);
    assert(slots_of_segment(s) =~= Seq::<ReadSlot>::empty());
    assert(slots_of(after) =~= slots_of(segments));
}

/// Whether the open file `ino` is in order and laid out front to back on
/// disk.
pub open spec fn file_readable(w: World, ino: u64) -> bool {
    &&& file_settled(w, ino)
    &&& front_to_back(w.disk, slots_of(w.table[ino].segments))
}

/// A write at the end of a readable file appends to it: the file stays
/// readable, and after a write that ended well it holds the bytes it held
/// before and then the written bytes. A write that failed leaves the bytes
/// of the file as they were.
pub proof fn lemma_write_appends(
    w: World,
    machine: Seq<char>,
    segment_size: u64,
    ino: u64,
    offset: u64,
    data: Seq<u8>,
    tail: TailSegment,
    fresh: Seq<(u64, u64)>,
)
    requires
        file_readable(w, ino),
        table_tail(w.table, ino) == Some(tail),
        fresh_names(w.disk, w.table[ino].segments, fresh),
        0 < data.len() <= u32::MAX,
        offset == file_size(slots_of(w.table[ino].segments)),
        offset + data.len() <= u64::MAX,
    ensures
        ({
            let (after, r) = run_write_on(
                w,
                machine,
                segment_size,
                ino,
                offset,
                data,
                tail,
                fresh,
            );
            let before = content(w.disk, slots_of(w.table[ino].segments));
            let now = content(after.disk, slots_of(after.table[ino].segments));
            &&& file_readable(after, ino)
            &&& r is Ok ==> now == before + data
            &&& r is Err ==> now == before
            &&& committable(w.table[ino], machine, ino) ==> committable(
                after.table[ino],
                machine,
                ino,
            )
        }),
    decreases fresh.len(),
{
    lemma_write_keeps_file_settled(w, machine, segment_size, ino, offset, data, tail, fresh);
    let segs = w.table[ino].segments;
    let slots = slots_of(segs);
    let s = segs.last();
    let file = file_of(w.disk, tail.id0, tail.id1);
    let cur = file.len() as u64;
    let len = data.len() as u32;
    let (disk, reply) = worker_write(w.disk, tail, data);
    if reply.err == Errno::Enospc && fresh.len() == 0 {
    } else if reply.err == Errno::Esucc {
        let b = written_block(ino, offset, cur, len);
        let slot = ReadSlot { id0: tail.id0, id1: tail.id1, block: b };
        assert(table_has_segment(w.table, ino, tail.id0, tail.id1));
        lemma_add_block_frame(w.table, ino, tail.id0, tail.id1, b);
        let after = table_add_block(w.table, ino, tail.id0, tail.id1, b);
        assert(after[ino].segments =~= segs.update(segs.len() - 1, s.push_block(b)));
        lemma_slots_push_block(segs, b);
        let slots2 = slots_of(after[ino].segments);
        assert(slots2 == slots.push(slot));
        assert(file_of(disk, tail.id0, tail.id1) == file + data);
        assert forall|i: int| 0 <= i < slots.len() implies stored(disk, #[trigger] slots[i])
            == stored(w.disk, slots[i]) && slot_on_disk(disk, slots[i]) by {
            assert(slot_on_disk(w.disk, slots[i]));
            if (slots[i].id0, slots[i].id1) == (tail.id0, tail.id1) {
                assert((file + data).subrange(
                    slots[i].block.seg_start_addr as int,
                    slots[i].block.seg_end_addr as int,
                ) =~= file.subrange(
                    slots[i].block.seg_start_addr as int,
                    slots[i].block.seg_end_addr as int,
                ));
            } else {
                assert(file_of(disk, slots[i].id0, slots[i].id1) == file_of(
                    w.disk,
                    slots[i].id0,
                    slots[i].id1,
                ));
            }
        }
        assert(stored(disk, slot) =~= data);
        assert(slot_on_disk(disk, slot));
        assert(front_to_back(disk, slots2)) by {
            assert forall|i: int| 0 <= i < slots2.len() implies slot_on_disk(
                disk,
                #[trigger] slots2[i],
            ) by {
                if i < slots.len() {
                    assert(slots2[i] == slots[i]);
                }
            }
            assert forall|i: int| 0 <= i && i + 1 < slots2.len() implies (
            #[trigger] slots2[i]).block.file_end() == slots2[i + 1].block.offset by {
                if i + 1 < slots.len() {
                    assert(slots[i].block.file_end() == slots[i + 1].block.offset);
                }
            }
        }
        lemma_content_push(disk, slots, slot, 0);
        lemma_content_same(disk, w.disk, slots, 0);
        if committable(w.table[ino], machine, ino) {
            assert forall|i: int| 0 <= i < after[ino].segments.len() implies (
            #[trigger] after[ino].segments[i]).leader == machine && after[ino].segments[i].owned_by(
                ino,
            ) by {
                assert(segs[i].leader == machine && segs[i].owned_by(ino));
            }
        }
    } else {
        let seg = started_segment(fresh[0], machine, segment_size);
        let t = w.table.insert(ino, w.table[ino].push_segment(seg));
        let next = World { table: t, disk, meta: w.meta };
        let next_tail = TailSegment { id0: seg.seg_id0, id1: seg.seg_id1, max_size: seg.max_size };
        assert(disk == w.disk);
        lemma_slots_push_empty_segment(segs, seg);
        lemma_first_segment_of_new_name(segs, seg);
        assert(file_settled(next, ino)) by {
            assert forall|i: int| 0 <= i < t[ino].segments.len() implies (
            #[trigger] t[ino].segments[i]).wf() by {
                if i < segs.len() {
                    assert(segs[i].wf());
                }
            }
        }
        assert(fresh_names(disk, t[ino].segments, fresh.skip(1))) by {
            let rest = fresh.skip(1);
            assert forall|i: int, j: int|
                0 <= i < rest.len() && 0 <= j < t[ino].segments.len() implies #[trigger] rest[i]
                != ((#[trigger] t[ino].segments[j]).seg_id0, t[ino].segments[j].seg_id1) by {
                assert(rest[i] == fresh[i + 1]);
                if j < segs.len() {
                    assert(fresh[i + 1] != (segs[j].seg_id0, segs[j].seg_id1));
                }
            }
            assert forall|i: int| 0 <= i < rest.len() implies file_of(
                disk,
                (#[trigger] rest[i]).0,
                rest[i].1,
            ).len() <= u64::MAX by {
                assert(rest[i] == fresh[i + 1]);
            }
        }
        if committable(w.table[ino], machine, ino) {
            assert forall|i: int| 0 <= i < t[ino].segments.len() implies (
            #[trigger] t[ino].segments[i]).leader == machine && t[ino].segments[i].owned_by(
                ino,
            ) by {
                if i < segs.len() {
                    assert(segs[i].leader == machine && segs[i].owned_by(ino));
                }
            }
        }
        lemma_write_appends(
            next,
            machine,
            segment_size,
            ino,
            offset,
            data,
            next_tail,
            fresh.skip(1),
        );
    }
}

/// A file that is in order and can be committed holds the handle
/// invariant: each of its segments holds the segment invariant and is led
/// by the machine that leads the file.
pub proof fn lemma_settled_file_is_wf(w: World, machine: Seq<char>, ino: u64)
    requires
        file_settled(w, ino),
        committable(w.table[ino], machine, ino),
    ensures
        w.table[ino].wf(),
{
}

/// What is appended is read back, at once and after a close: when a write
/// at the end of a readable file ends well, a read of the whole file gives
/// the bytes it held before and then the written bytes; and when the file
/// is then closed and opened again by a leader that was just started, the
/// same read gives the same bytes.
pub proof fn lemma_append_is_read_back(
    w: World,
    machine: Seq<char>,
    segment_size: u64,
    workers: u32,
    ino: u64,
    data: Seq<u8>,
    fresh: Seq<(u64, u64)>,
)
    requires
        file_readable(w, ino),
        committable(w.table[ino], machine, ino),
        fresh_names(w.disk, w.table[ino].segments, fresh),
        0 < data.len(),
        file_size(slots_of(w.table[ino].segments)) + data.len() <= u32::MAX,
    ensures
        ({
            let offset = file_size(slots_of(w.table[ino].segments)) as u64;
            let whole = (offset + data.len()) as u32;
            let (written, r) = run_write(w, machine, segment_size, ino, offset, data, fresh);
            let (closed, e) = run_close(written, workers, ino);
            let (reopened, o) = run_open(restarted(closed), machine, ino);
            let all = content(w.disk, slots_of(w.table[ino].segments)) + data;
            r is Ok ==> {
                &&& run_read(written, ino, 0, whole) == Ok::<Seq<u8>, Errno>(all)
                &&& e == Errno::Esucc
                &&& o == Errno::Esucc
                &&& run_read(reopened, ino, 0, whole) == Ok::<Seq<u8>, Errno>(all)
            }
        }),
{
    let slots = slots_of(w.table[ino].segments);
    lemma_content_len(w.disk, slots, 0);
    if slots.len() > 0 {
        assert(slot_on_disk(w.disk, slots[slots.len() - 1]));
    }
    let offset = file_size(slots) as u64;
    let whole = (offset + data.len()) as u32;
    let tail = table_tail(w.table, ino).unwrap();
    lemma_write_appends(w, machine, segment_size, ino, offset, data, tail, fresh);
    let (written, r) = run_write(w, machine, segment_size, ino, offset, data, fresh);
    if r is Ok {
        let all = content(w.disk, slots) + data;
        lemma_read_front_to_back(written, ino, whole);
        assert(all.take(whole as int) =~= all);
        lemma_close_persists(written, machine, workers, ino, 0, whole);
    }
}

} // verus!
