//! The leader of the files that this machine owns.
//!
//! The leader decides; it does no I/O. Each operation is a small state
//! machine: a step either asks for one piece of outside work (a request to
//! a disk worker or to the metadata service) or ends the operation. Whoever
//! drives the leader performs the request and hands the answer to the next
//! step.

use vstd::prelude::*;
use crate::disk_io::{MsgFileReadData, MsgFileWriteResp};
use crate::errno::Errno;
use crate::file_handle::{segment_views, FileHandle, FileHandleView};
use crate::handle_mgr::{
    table_add_block, table_add_segment, table_has_segment, table_tail, FileHandleMgr, Table,
    TailSegment,
};
use crate::ids::uuid_u64_le;
use crate::io_pool::{owner_of, IoThreadPool};
use crate::read_plan::{
    accept_reply, advance, collect_slots, read_advance, read_after_reply, reply_view, slots_of,
    ReadMove, ReadNext, ReadSlot, ReadState, ReadStateView,
};
use crate::segment_mgr::{
    all_led_by, meta_of_segments, meta_views, segment_dir, segments_of_meta, SegmentMgr,
};
use crate::types::{Block, BlockIo, MetaSegment, MetaSegmentView, Segment, SegmentView};

verus! {

pub struct LeaderLocal {
    machine: String,
    disk_io_pool: IoThreadPool,
    segment_mgr: SegmentMgr,
    handle_mgr: FileHandleMgr,
}

/// A request to the worker `worker` to append the caller's bytes to the
/// file of segment `(id0, id1)` in `dir`, which may hold `max_size` bytes.
/// `offset` is the file offset of the bytes; the worker does not use it.
#[derive(Debug)]
pub struct WriteRequest {
    pub worker: u32,
    pub id0: u64,
    pub id1: u64,
    pub max_size: u64,
    pub dir: String,
    pub offset: u64,
}

/// The mathematical value of a [`WriteRequest`].
pub struct WriteRequestView {
    pub worker: u32,
    pub id0: u64,
    pub id1: u64,
    pub max_size: u64,
    pub dir: Seq<char>,
    pub offset: u64,
}

impl View for WriteRequest {
    type V = WriteRequestView;

    open spec fn view(&self) -> WriteRequestView {
        WriteRequestView {
            worker: self.worker,
            id0: self.id0,
            id1: self.id1,
            max_size: self.max_size,
            dir: self.dir@,
            offset: self.offset,
        }
    }
}

/// What a step of `write` asks for.
#[derive(Debug)]
pub enum WriteStep {
    /// Send the request to its worker and hand the answer to `write_reply`.
    Dispatch(WriteRequest),
    /// The write is over.
    Done(Result<BlockIo, Errno>),
}

/// How a write goes on after an answer: once more on another segment, or
/// not at all.
pub enum WriteNext {
    Retry(TailSegment),
    Done(Result<BlockIo, Errno>),
}

/// The block that records `nwrite` bytes of file `ino` at file offset
/// `offset`, written at `seg_offset` of a segment.
pub open spec fn written_block(ino: u64, offset: u64, seg_offset: u64, nwrite: u32) -> Block {
    Block {
        ino,
        generation: 0,
        offset,
        seg_start_addr: seg_offset,
        seg_end_addr: (seg_offset + nwrite) as u64,
        size: nwrite as i64,
    }
}

/// The empty segment named `ids`, led by `machine`, that may hold
/// `max_size` bytes.
pub open spec fn started_segment(ids: (u64, u64), machine: Seq<char>, max_size: u64)
    -> SegmentView {
    SegmentView {
        seg_id0: ids.0,
        seg_id1: ids.1,
        leader: machine,
        max_size,
        blocks: Seq::<Block>::empty(),
    }
}

/// The table after the answer `reply` to a write of file `ino` at file
/// offset `offset` on segment `(id0, id1)`, where `fresh` is the segment to
/// use if that one is full. The table of a released leader never changes.
pub open spec fn table_after_write_reply(
    t: Table,
    released: bool,
    ino: u64,
    offset: u64,
    id0: u64,
    id1: u64,
    reply: Option<MsgFileWriteResp>,
    fresh: SegmentView,
) -> Table {
    match reply {
        None => t,
        Some(r) => if released {
            t
        } else if r.err == Errno::Esucc {
            if r.offset + r.nwrite <= u64::MAX {
                table_add_block(t, ino, id0, id1, written_block(ino, offset, r.offset, r.nwrite))
            } else {
                t
            }
        } else if r.err == Errno::Enospc {
            table_add_segment(t, ino, fresh)
        } else {
            t
        },
    }
}

/// How the write goes on after the answer `reply`.
pub open spec fn write_after_reply(
    t: Table,
    released: bool,
    ino: u64,
    id0: u64,
    id1: u64,
    reply: Option<MsgFileWriteResp>,
    fresh: SegmentView,
) -> WriteNext {
    match reply {
        None => WriteNext::Done(Err(Errno::Eintr)),
        Some(r) => if r.err == Errno::Esucc {
            if r.offset + r.nwrite > u64::MAX || released {
                WriteNext::Done(Err(Errno::Eintr))
            } else if table_has_segment(t, ino, id0, id1) {
                WriteNext::Done(Ok(BlockIo { id0, id1, offset: r.offset, size: r.nwrite }))
            } else {
                WriteNext::Done(Err(Errno::Enoent))
            }
        } else if r.err == Errno::Enospc {
            WriteNext::Retry(
                TailSegment { id0: fresh.seg_id0, id1: fresh.seg_id1, max_size: fresh.max_size },
            )
        } else {
            WriteNext::Done(Err(r.err))
        },
    }
}

/// A request to the worker `worker` to read `size` bytes at `offset` of
/// the file of segment `(id0, id1)` in `dir`.
#[derive(Debug)]
pub struct ReadRequest {
    pub worker: u32,
    pub id0: u64,
    pub id1: u64,
    pub dir: String,
    pub offset: u64,
    pub size: u32,
}

/// The mathematical value of a [`ReadRequest`].
pub struct ReadRequestView {
    pub worker: u32,
    pub id0: u64,
    pub id1: u64,
    pub dir: Seq<char>,
    pub offset: u64,
    pub size: u32,
}

impl View for ReadRequest {
    type V = ReadRequestView;

    open spec fn view(&self) -> ReadRequestView {
        ReadRequestView {
            worker: self.worker,
            id0: self.id0,
            id1: self.id1,
            dir: self.dir@,
            offset: self.offset,
            size: self.size,
        }
    }
}

/// What a step of `read` asks for.
pub enum ReadStep {
    /// Send the request to its worker and hand the state and the answer to
    /// `read_reply`.
    Fetch(ReadState, ReadRequest),
    /// The read is over.
    Done(Result<Vec<u8>, Errno>),
}

/// The state of a read of `size` bytes at `offset` of the file of handle
/// `h`, before any block is looked at.
pub open spec fn initial_read(h: FileHandleView, offset: u64, size: u32) -> ReadStateView {
    ReadStateView {
        slots: slots_of(h.segments),
        next: 0,
        start: offset,
        remaining: size,
        data: Seq::<u8>::empty(),
    }
}

/// A request to the worker `worker` to open the file of segment
/// `(id0, id1)` in `dir`.
#[derive(Debug)]
pub struct OpenRequest {
    pub worker: u32,
    pub id0: u64,
    pub id1: u64,
    pub dir: String,
}

/// The mathematical value of an [`OpenRequest`].
pub struct OpenRequestView {
    pub worker: u32,
    pub id0: u64,
    pub id1: u64,
    pub dir: Seq<char>,
}

impl View for OpenRequest {
    type V = OpenRequestView;

    open spec fn view(&self) -> OpenRequestView {
        OpenRequestView { worker: self.worker, id0: self.id0, id1: self.id1, dir: self.dir@ }
    }
}

/// An open in progress: the segments of the file and the one whose worker
/// was asked last.
pub struct OpenState {
    pub segments: Vec<Segment>,
    pub next: usize,
}

/// The mathematical value of an [`OpenState`].
pub struct OpenStateView {
    pub segments: Seq<SegmentView>,
    pub next: int,
}

impl View for OpenState {
    type V = OpenStateView;

    open spec fn view(&self) -> OpenStateView {
        OpenStateView { segments: segment_views(self.segments@), next: self.next as int }
    }
}

/// What a step of `open` asks for.
pub enum OpenStep {
    /// Ask the metadata service for the segments of the file and hand them
    /// to `open_segments`.
    FetchSegments,
    /// Send the request to its worker and hand the state and the answer to
    /// `open_reply`.
    Open(OpenState, OpenRequest),
    /// The open is over.
    Done(Errno),
}

/// What an open does next.
pub enum OpenNext {
    FetchSegments,
    /// Open segment `next` of `segments`.
    Open(OpenStateView),
    Done(Errno),
}

/// The first step of an open of `ino`: nothing to do for a file that is
/// open already, otherwise its segments are needed.
pub open spec fn open_first(t: Table, released: bool, ino: u64) -> OpenNext {
    if released {
        OpenNext::Done(Errno::Eintr)
    } else if t.contains_key(ino) {
        OpenNext::Done(Errno::Esucc)
    } else {
        OpenNext::FetchSegments
    }
}

/// The handle of `ino` led by `machine` with the segments `segments`.
pub open spec fn opened_handle(ino: u64, machine: Seq<char>, segments: Seq<SegmentView>)
    -> FileHandleView {
    FileHandleView { ino, leader: machine, segments }
}

/// The table after a handle was added for `ino`.
pub open spec fn table_with_handle(
    t: Table,
    released: bool,
    ino: u64,
    machine: Seq<char>,
    segments: Seq<SegmentView>,
) -> Table {
    if released {
        t
    } else {
        t.insert(ino, opened_handle(ino, machine, segments))
    }
}

/// What an open of `ino` on `machine` does with the answer of the metadata
/// service: an error ends it; segments led by another machine end it with
/// `Eintr`; with no segment the file is open at once; otherwise the first
/// segment is opened.
pub open spec fn open_after_segments(
    ino: u64,
    machine: Seq<char>,
    fetched: Result<Seq<MetaSegmentView>, Errno>,
) -> OpenNext {
    match fetched {
        Err(e) => OpenNext::Done(e),
        Ok(metas) => if !all_led_by(metas, machine) {
            OpenNext::Done(Errno::Eintr)
        } else if metas.len() == 0 {
            OpenNext::Done(Errno::Esucc)
        } else {
            OpenNext::Open(OpenStateView { segments: segments_of_meta(ino, metas), next: 0 })
        },
    }
}

/// The table after the answer of the metadata service: a file without
/// segments gets its handle at once.
pub open spec fn table_after_segments(
    t: Table,
    released: bool,
    ino: u64,
    machine: Seq<char>,
    fetched: Result<Seq<MetaSegmentView>, Errno>,
) -> Table {
    match fetched {
        Ok(metas) => if all_led_by(metas, machine) && metas.len() == 0 {
            table_with_handle(t, released, ino, machine, Seq::<SegmentView>::empty())
        } else {
            t
        },
        Err(_) => t,
    }
}

/// What an open does with a worker's answer; `None` stands for an answer
/// that never came. The first failure ends the open; after the last
/// segment the file is open.
pub open spec fn open_after_reply(st: OpenStateView, reply: Option<Errno>) -> OpenNext {
    match reply {
        None => OpenNext::Done(Errno::Eintr),
        Some(e) => if e != Errno::Esucc {
            OpenNext::Done(e)
        } else if st.next + 1 < st.segments.len() {
            OpenNext::Open(OpenStateView { next: st.next + 1, ..st })
        } else {
            OpenNext::Done(Errno::Esucc)
        },
    }
}

/// The table after a worker's answer: the handle is added once the last
/// segment is open.
pub open spec fn table_after_open_reply(
    t: Table,
    released: bool,
    ino: u64,
    machine: Seq<char>,
    st: OpenStateView,
    reply: Option<Errno>,
) -> Table {
    if reply == Some(Errno::Esucc) && !(st.next + 1 < st.segments.len()) {
        table_with_handle(t, released, ino, machine, st.segments)
    } else {
        t
    }
}

/// A request to the worker `worker` to close the file of segment
/// `(id0, id1)`. No answer is expected.
#[derive(Clone, Copy, Debug, PartialEq, Eq, Structural)]
pub struct CloseRequest {
    pub worker: u32,
    pub id0: u64,
    pub id1: u64,
}

/// What a step of `close` asks for.
pub enum CloseStep {
    /// Send the segment list to the metadata service and hand the outcome
    /// to `close_updated`.
    Update(Vec<MetaSegment>),
    /// Send each request to its worker, whatever becomes of it; the close
    /// is over with `result`.
    Finish { closes: Vec<CloseRequest>, result: Errno },
}

/// What a close does next.
pub enum CloseNext {
    Update(Seq<MetaSegmentView>),
    Finish { closes: Seq<CloseRequest>, result: Errno },
}

/// The requests that close the files of `segments` in a pool of `workers`
/// workers.
pub open spec fn close_requests(segments: Seq<SegmentView>, workers: u32) -> Seq<CloseRequest> {
    segments.map_values(
        |s: SegmentView|
            CloseRequest {
                worker: owner_of(s.seg_id0, s.seg_id1, workers) as u32,
                id0: s.seg_id0,
                id1: s.seg_id1,
            },
    )
}

/// The first step of a close of `ino`: the segments of the file go to the
/// metadata service; a file without segments is closed at once.
pub open spec fn close_first(t: Table, released: bool, ino: u64) -> CloseNext {
    if released {
        CloseNext::Finish { closes: Seq::empty(), result: Errno::Eintr }
    } else if !t.contains_key(ino) {
        CloseNext::Finish { closes: Seq::empty(), result: Errno::Enoent }
    } else if t[ino].segments.len() > 0 {
        CloseNext::Update(meta_of_segments(t[ino].segments))
    } else {
        CloseNext::Finish { closes: Seq::empty(), result: Errno::Esucc }
    }
}

/// The table after the first step of a close.
pub open spec fn table_after_close_first(t: Table, released: bool, ino: u64) -> Table {
    if !released && t.contains_key(ino) && t[ino].segments.len() == 0 {
        t.remove(ino)
    } else {
        t
    }
}

/// What a close does once the metadata service answered with `result`: a
/// failure ends it; after a success the files of the segments are closed
/// and the handle is forgotten.
pub open spec fn close_after_update(t: Table, released: bool, workers: u32, ino: u64, result: Errno)
    -> CloseNext {
    if result != Errno::Esucc {
        CloseNext::Finish { closes: Seq::empty(), result }
    } else if released {
        CloseNext::Finish { closes: Seq::empty(), result: Errno::Eintr }
    } else if !t.contains_key(ino) {
        CloseNext::Finish { closes: Seq::empty(), result: Errno::Enoent }
    } else {
        CloseNext::Finish {
            closes: close_requests(t[ino].segments, workers),
            result: Errno::Esucc,
        }
    }
}

/// The table once the metadata service answered with `result`: a failure
/// leaves it as it is.
pub open spec fn table_after_update(t: Table, released: bool, ino: u64, result: Errno) -> Table {
    if result == Errno::Esucc && !released {
        t.remove(ino)
    } else {
        t
    }
}

/// A close that the metadata service refused changes nothing: a file with
/// segments keeps its handle through both steps of the close, so the close
/// can be tried again and then goes on as the first one did.
pub proof fn lemma_failed_close_changes_nothing(t: Table, released: bool, ino: u64, result: Errno)
    requires
        t.contains_key(ino),
        t[ino].segments.len() > 0,
        result != Errno::Esucc,
    ensures
        table_after_close_first(t, released, ino) == t,
        table_after_update(table_after_close_first(t, released, ino), released, ino, result) == t,
        close_first(
            table_after_update(table_after_close_first(t, released, ino), released, ino, result),
            released,
            ino,
        ) == close_first(t, released, ino),
{
}

impl LeaderLocal {
    /// The name of this machine.
    pub closed spec fn machine(&self) -> Seq<char> {
        self.machine@
    }

    /// The number of disk workers.
    pub closed spec fn workers(&self) -> u32 {
        self.disk_io_pool.size()
    }

    /// The directory under which the segments live.
    pub closed spec fn root(&self) -> Seq<char> {
        self.segment_mgr.root()
    }

    /// The number of partitions of the root directory.
    pub closed spec fn partitions(&self) -> u64 {
        self.segment_mgr.partitions()
    }

    /// The capacity given to new segments.
    pub closed spec fn segment_size(&self) -> u64 {
        self.segment_mgr.max_size()
    }

    /// The table of open handles.
    pub closed spec fn table(&self) -> Table {
        self.handle_mgr@
    }

    /// Whether the leader has been released.
    pub closed spec fn released(&self) -> bool {
        self.handle_mgr.is_stopped()
    }

    /// The leader's invariant.
    pub closed spec fn wf(&self) -> bool {
        self.handle_mgr.wf()
    }

    /// Everything but the table and whether the leader is released is as
    /// in `other`.
    pub open spec fn same_config(&self, other: &LeaderLocal) -> bool {
        &&& self.machine() == other.machine()
        &&& self.workers() == other.workers()
        &&& self.root() == other.root()
        &&& self.partitions() == other.partitions()
        &&& self.segment_size() == other.segment_size()
    }

    /// The directory of segment `(id0, id1)`.
    pub open spec fn dir_of(&self, id0: u64, id1: u64) -> Seq<char> {
        segment_dir(self.root(), self.partitions(), id0, id1)
    }

    /// The empty segment named `ids` that this leader starts when a tail
    /// is full: led by this machine, with the configured capacity.
    pub open spec fn fresh_segment(&self, ids: (u64, u64)) -> SegmentView {
        started_segment(ids, self.machine(), self.segment_size())
    }

    /// The request that writes at file offset `offset` to the segment
    /// `tail`.
    pub open spec fn write_request(&self, tail: TailSegment, offset: u64) -> WriteRequestView {
        WriteRequestView {
            worker: owner_of(tail.id0, tail.id1, self.workers()) as u32,
            id0: tail.id0,
            id1: tail.id1,
            max_size: tail.max_size,
            dir: self.dir_of(tail.id0, tail.id1),
            offset,
        }
    }

    /// A leader for `machine` with `thr_num` disk workers and an empty
    /// table.
    pub fn new(machine: &String, thr_num: u32, mgr: SegmentMgr) -> (leader: LeaderLocal)
        requires
            thr_num > 0,
        ensures
            leader.wf(),
            !leader.released(),
            leader.table() == Table::empty(),
            leader.machine() == machine@,
            leader.workers() == thr_num,
            leader.root() == mgr.root(),
            leader.partitions() == mgr.partitions(),
            leader.segment_size() == mgr.max_size(),
    {
        LeaderLocal {
            machine: machine.clone(),
            disk_io_pool: IoThreadPool::new(thr_num),
            segment_mgr: mgr,
            handle_mgr: FileHandleMgr::create(),
        }
    }

    /// A copy of the handle of `ino`, as the table holds it now.
    pub fn handle(&self, ino: u64) -> (r: Result<FileHandle, Errno>)
        requires
            self.wf(),
        ensures
            match r {
                Ok(h) => !self.released() && self.table().contains_key(ino) && h@
                    == self.table()[ino],
                Err(e) => if self.released() {
                    e == Errno::Eintr
                } else {
                    e == Errno::Enoent && !self.table().contains_key(ino)
                },
            },
    {
        self.handle_mgr.get(ino)
    }

    /// The number of disk workers.
    pub fn worker_count(&self) -> (n: u32)
        ensures
            n == self.workers(),
    {
        self.disk_io_pool.len()
    }

    /// The number of open files.
    pub fn open_files(&self) -> (n: usize)
        ensures
            n == self.table().dom().len(),
    {
        self.handle_mgr.len()
    }

    fn make_write_request(&self, tail: TailSegment, offset: u64) -> (req: WriteRequest)
        ensures
            req@ == self.write_request(tail, offset),
    {
        WriteRequest {
            worker: self.disk_io_pool.get_thread(tail.id0, tail.id1),
            id0: tail.id0,
            id1: tail.id1,
            max_size: tail.max_size,
            dir: self.segment_mgr.get_segment_dir(tail.id0, tail.id1),
            offset,
        }
    }

    /// First step of a write to file `ino` at file offset `offset`: the
    /// request for the tail segment of the file. The write ends at once
    /// with `Enoent` when the file is not open or has no segment, and with
    /// `Eintr` when the leader is released.
    pub fn write_begin(&self, ino: u64, offset: u64) -> (step: WriteStep)
        requires
            self.wf(),
        ensures
            match step {
                WriteStep::Dispatch(req) => !self.released() && table_tail(self.table(), ino)
                    is Some && req@ == self.write_request(
                    table_tail(self.table(), ino).unwrap(),
                    offset,
                ),
                WriteStep::Done(r) => r == if self.released() {
                    Err::<BlockIo, Errno>(Errno::Eintr)
                } else {
                    Err::<BlockIo, Errno>(Errno::Enoent)
                } && (self.released() || table_tail(self.table(), ino) is None),
            },
    {
        match self.handle_mgr.get_last_segment(ino) {
            Ok(tail) => WriteStep::Dispatch(self.make_write_request(tail, offset)),
            Err(e) => WriteStep::Done(Err(e)),
        }
    }

    /// Next step of a write after the answer of the worker that was asked
    /// to write to segment `(id0, id1)`; `None` stands for an answer that
    /// never came. `fresh` names the segment to start if that one is full.
    ///
    /// On success the written bytes are recorded as a block of the segment
    /// and the write ends with its receipt. A full segment makes the write
    /// go on: a new empty segment led by this machine becomes the tail of
    /// the file, and the next request goes there. Any other answer ends the
    /// write with its error and leaves the table as it is.
    pub fn write_reply_with(
        &mut self,
        ino: u64,
        offset: u64,
        id0: u64,
        id1: u64,
        reply: Option<MsgFileWriteResp>,
        fresh: (u64, u64),
    ) -> (step: WriteStep)
        requires
            old(self).wf(),
        ensures
            final(self).wf(),
            final(self).released() == old(self).released(),
            final(self).same_config(old(self)),
            final(self).table() == table_after_write_reply(
                old(self).table(),
                old(self).released(),
                ino,
                offset,
                id0,
                id1,
                reply,
                old(self).fresh_segment(fresh),
            ),
            match write_after_reply(
                old(self).table(),
                old(self).released(),
                ino,
                id0,
                id1,
                reply,
                old(self).fresh_segment(fresh),
            ) {
                WriteNext::Retry(tail) => step matches WriteStep::Dispatch(req) && req@
                    == old(self).write_request(tail, offset),
                WriteNext::Done(r) => step matches WriteStep::Done(d) && d == r,
            },
    {
        let r = match reply {
            None => {
                return WriteStep::Done(Err(Errno::Eintr));
            },
            Some(r) => r,
        };
        if r.err.is_success() {
            let end = match r.offset.checked_add(r.nwrite as u64) {
                None => {
                    return WriteStep::Done(Err(Errno::Eintr));
                },
                Some(end) => end,
            };
            let b = Block {
                ino,
                generation: 0,
                offset,
                seg_start_addr: r.offset,
                seg_end_addr: end,
                size: r.nwrite as i64,
            };
            let ret = self.handle_mgr.add_block(ino, id0, id1, &b);
            if !ret.is_success() {
                return WriteStep::Done(Err(ret));
            }
            WriteStep::Done(Ok(BlockIo { id0, id1, offset: r.offset, size: r.nwrite }))
        } else if r.err.is_enospc() {
            let seg = self.segment_mgr.new_segment_with(fresh.0, fresh.1, &self.machine);
            let _ = self.handle_mgr.add_segment(ino, &seg);
            let tail = TailSegment { id0: seg.seg_id0, id1: seg.seg_id1, max_size: seg.max_size };
            WriteStep::Dispatch(self.make_write_request(tail, offset))
        } else {
            WriteStep::Done(Err(r.err))
        }
    }

    /// Next step of a write after the answer of the worker that was asked
    /// to write to segment `(id0, id1)`. A segment that has to be started
    /// gets a fresh random name; apart from that name the step is that of
    /// [`LeaderLocal::write_reply_with`].
    pub fn write_reply(
        &mut self,
        ino: u64,
        offset: u64,
        id0: u64,
        id1: u64,
        reply: Option<MsgFileWriteResp>,
    ) -> (step: WriteStep)
        requires
            old(self).wf(),
        ensures
            final(self).wf(),
            final(self).released() == old(self).released(),
            final(self).same_config(old(self)),
            exists|fresh: (u64, u64)|
                {
                    &&& final(self).table() == table_after_write_reply(
                        old(self).table(),
                        old(self).released(),
                        ino,
                        offset,
                        id0,
                        id1,
                        reply,
                        #[trigger] old(self).fresh_segment(fresh),
                    )
                    &&& match write_after_reply(
                        old(self).table(),
                        old(self).released(),
                        ino,
                        id0,
                        id1,
                        reply,
                        old(self).fresh_segment(fresh),
                    ) {
                        WriteNext::Retry(tail) => step matches WriteStep::Dispatch(req) && req@
                            == old(self).write_request(tail, offset),
                        WriteNext::Done(r) => step matches WriteStep::Done(d) && d == r,
                    }
                },
    {
        let fresh = uuid_u64_le();
        let step = self.write_reply_with(ino, offset, id0, id1, reply, fresh);
        assert(self.table() == table_after_write_reply(
            old(self).table(),
            old(self).released(),
            ino,
            offset,
            id0,
            id1,
            reply,
            old(self).fresh_segment(fresh),
        ));
        step
    }

    /// The request that reads `size` bytes at `seg_offset` of the segment
    /// of `slot`.
    pub open spec fn read_request(&self, slot: ReadSlot, seg_offset: u64, size: u32)
        -> ReadRequestView {
        ReadRequestView {
            worker: owner_of(slot.id0, slot.id1, self.workers()) as u32,
            id0: slot.id0,
            id1: slot.id1,
            dir: self.dir_of(slot.id0, slot.id1),
            offset: seg_offset,
            size,
        }
    }

    /// Whether `step` is the step that `planned` describes.
    pub open spec fn read_step_is(&self, step: ReadStep, planned: (ReadStateView, ReadNext))
        -> bool {
        match planned.1 {
            ReadNext::Fetch { slot, seg_offset, size } => step matches ReadStep::Fetch(state, req)
                && state@ == planned.0 && req@ == self.read_request(slot, seg_offset, size),
            ReadNext::Done(Ok(bytes)) => step matches ReadStep::Done(Ok(v)) && v@ == bytes,
            ReadNext::Done(Err(e)) => step matches ReadStep::Done(Err(d)) && d == e,
        }
    }

    fn read_step_of(&self, m: ReadMove) -> (step: ReadStep)
        ensures
            forall|planned: (ReadStateView, ReadNext)|
                m.is(planned) ==> self.read_step_is(step, planned),
    {
        match m {
            ReadMove::Fetch { state, slot, seg_offset, size } => {
                let req = ReadRequest {
                    worker: self.disk_io_pool.get_thread(slot.id0, slot.id1),
                    id0: slot.id0,
                    id1: slot.id1,
                    dir: self.segment_mgr.get_segment_dir(slot.id0, slot.id1),
                    offset: seg_offset,
                    size,
                };
                ReadStep::Fetch(state, req)
            },
            ReadMove::Done(r) => ReadStep::Done(r),
        }
    }

    /// First step of a read of `size` bytes at file offset `offset` of
    /// file `ino`. The read works on the blocks that are recorded now. It
    /// ends at once with `Enoent` when the file is not open, and with
    /// `Eintr` when the leader is released.
    pub fn read_begin(&self, ino: u64, offset: u64, size: u32) -> (step: ReadStep)
        requires
            self.wf(),
        ensures
            if self.released() {
                step matches ReadStep::Done(Err(e)) && e == Errno::Eintr
            } else if !self.table().contains_key(ino) {
                step matches ReadStep::Done(Err(e)) && e == Errno::Enoent
            } else {
                self.read_step_is(
                    step,
                    read_advance(initial_read(self.table()[ino], offset, size)),
                )
            },
    {
        let handle = match self.handle_mgr.get(ino) {
            Ok(h) => h,
            Err(e) => {
                return ReadStep::Done(Err(e));
            },
        };
        let st = ReadState {
            slots: collect_slots(&handle.segments),
            next: 0,
            start: offset,
            remaining: size,
            data: Vec::new(),
        };
        let m = advance(st);
        self.read_step_of(m)
    }

    /// Next step of a read after a worker's answer; `None` stands for an
    /// answer that never came.
    pub fn read_reply(&self, state: ReadState, reply: Option<MsgFileReadData>) -> (step: ReadStep)
        ensures
            self.read_step_is(step, read_after_reply(state@, reply_view(reply))),
    {
        let m = accept_reply(state, reply);
        self.read_step_of(m)
    }

    /// The request that opens segment `seg`.
    pub open spec fn open_request(&self, seg: SegmentView) -> OpenRequestView {
        OpenRequestView {
            worker: owner_of(seg.seg_id0, seg.seg_id1, self.workers()) as u32,
            id0: seg.seg_id0,
            id1: seg.seg_id1,
            dir: self.dir_of(seg.seg_id0, seg.seg_id1),
        }
    }

    /// Whether `step` is the step that `planned` describes.
    pub open spec fn open_step_is(&self, step: OpenStep, planned: OpenNext) -> bool {
        match planned {
            OpenNext::FetchSegments => step is FetchSegments,
            OpenNext::Open(st) => step matches OpenStep::Open(state, req) && state@ == st && req@
                == self.open_request(st.segments[st.next]),
            OpenNext::Done(e) => step matches OpenStep::Done(d) && d == e,
        }
    }

    fn make_open_request(&self, seg: &Segment) -> (req: OpenRequest)
        ensures
            req@ == self.open_request(seg@),
    {
        OpenRequest {
            worker: self.disk_io_pool.get_thread(seg.seg_id0, seg.seg_id1),
            id0: seg.seg_id0,
            id1: seg.seg_id1,
            dir: self.segment_mgr.get_segment_dir(seg.seg_id0, seg.seg_id1),
        }
    }

    fn add_handle(&mut self, ino: u64, segments: Vec<Segment>)
        requires
            old(self).wf(),
        ensures
            final(self).wf(),
            final(self).released() == old(self).released(),
            final(self).same_config(old(self)),
            final(self).table() == table_with_handle(
                old(self).table(),
                old(self).released(),
                ino,
                old(self).machine(),
                segment_views(segments@),
            ),
    {
        let handle = FileHandle { ino, leader: self.machine.clone(), segments };
        self.handle_mgr.add(&handle);
    }

    /// First step of an open of file `ino`. A file that is open already
    /// stays as it is.
    pub fn open_begin(&self, ino: u64) -> (step: OpenStep)
        requires
            self.wf(),
        ensures
            self.open_step_is(step, open_first(self.table(), self.released(), ino)),
    {
        match self.handle_mgr.get(ino) {
            Ok(_) => OpenStep::Done(Errno::Esucc),
            Err(e) => if e.is_enoent() {
                OpenStep::FetchSegments
            } else {
                OpenStep::Done(e)
            },
        }
    }

    /// Next step of an open of file `ino` after the metadata service gave
    /// the segments of the file, or failed.
    pub fn open_segments(&mut self, ino: u64, fetched: Result<Vec<MetaSegment>, Errno>) -> (step:
        OpenStep)
        requires
            old(self).wf(),
        ensures
            final(self).wf(),
            final(self).released() == old(self).released(),
            final(self).same_config(old(self)),
            final(self).table() == table_after_segments(
                old(self).table(),
                old(self).released(),
                ino,
                old(self).machine(),
                fetched_view(fetched),
            ),
            final(self).open_step_is(
                step,
                open_after_segments(ino, old(self).machine(), fetched_view(fetched)),
            ),
    {
        let metas = match fetched {
            Ok(metas) => metas,
            Err(e) => {
                return OpenStep::Done(e);
            },
        };
        let segments = match self.segment_mgr.get_file_segments(ino, &self.machine, &metas) {
            Ok(segments) => segments,
            Err(e) => {
                return OpenStep::Done(e);
            },
        };
        if segments.len() == 0 {
            assert(segment_views(segments@) =~= Seq::<SegmentView>::empty());
            self.add_handle(ino, segments);
            return OpenStep::Done(Errno::Esucc);
        }
        let req = self.make_open_request(&segments[0]);
        OpenStep::Open(OpenState { segments, next: 0 }, req)
    }

    /// Next step of an open of file `ino` after a worker's answer to the
    /// request for segment `state.next`; `None` stands for an answer that
    /// never came. Segments that were opened before a failure stay open.
    pub fn open_reply(&mut self, ino: u64, state: OpenState, reply: Option<Errno>) -> (step:
        OpenStep)
        requires
            old(self).wf(),
        ensures
            final(self).wf(),
            final(self).released() == old(self).released(),
            final(self).same_config(old(self)),
            final(self).table() == table_after_open_reply(
                old(self).table(),
                old(self).released(),
                ino,
                old(self).machine(),
                state@,
                reply,
            ),
            final(self).open_step_is(step, open_after_reply(state@, reply)),
    {
        let e = match reply {
            None => {
                return OpenStep::Done(Errno::Eintr);
            },
            Some(e) => e,
        };
        if !e.is_success() {
            return OpenStep::Done(e);
        }
        let n = state.segments.len();
        if n > 0 && state.next < n - 1 {
            let next = state.next + 1;
            let req = self.make_open_request(&state.segments[next]);
            OpenStep::Open(OpenState { segments: state.segments, next }, req)
        } else {
            self.add_handle(ino, state.segments);
            OpenStep::Done(Errno::Esucc)
        }
    }

    /// Whether `step` is the step that `planned` describes.
    pub open spec fn close_step_is(step: CloseStep, planned: CloseNext) -> bool {
        match planned {
            CloseNext::Update(metas) => step matches CloseStep::Update(m) && meta_views(m@)
                == metas,
            CloseNext::Finish { closes, result } => step matches CloseStep::Finish {
                closes: c,
                result: r,
            } && c@ == closes && r == result,
        }
    }

    /// First step of a close of file `ino`.
    pub fn close_begin(&mut self, ino: u64) -> (step: CloseStep)
        requires
            old(self).wf(),
        ensures
            final(self).wf(),
            final(self).released() == old(self).released(),
            final(self).same_config(old(self)),
            final(self).table() == table_after_close_first(
                old(self).table(),
                old(self).released(),
                ino,
            ),
            Self::close_step_is(step, close_first(old(self).table(), old(self).released(), ino)),
    {
        let handle = match self.handle_mgr.get(ino) {
            Ok(h) => h,
            Err(e) => {
                return CloseStep::Finish { closes: Vec::new(), result: e };
            },
        };
        if handle.segments.len() > 0 {
            return CloseStep::Update(self.segment_mgr.update_segments_request(&handle.segments));
        }
        let result = self.handle_mgr.del(ino);
        CloseStep::Finish { closes: Vec::new(), result }
    }

    /// Next step of a close of file `ino` after the metadata service took
    /// the segment list, or failed with `result`. After a failure nothing
    /// has changed, so the close can be tried again.
    pub fn close_updated(&mut self, ino: u64, result: Errno) -> (step: CloseStep)
        requires
            old(self).wf(),
        ensures
            final(self).wf(),
            final(self).released() == old(self).released(),
            final(self).same_config(old(self)),
            final(self).table() == table_after_update(
                old(self).table(),
                old(self).released(),
                ino,
                result,
            ),
            Self::close_step_is(
                step,
                close_after_update(
                    old(self).table(),
                    old(self).released(),
                    old(self).workers(),
                    ino,
                    result,
                ),
            ),
    {
        if !result.is_success() {
            return CloseStep::Finish { closes: Vec::new(), result };
        }
        let handle = match self.handle_mgr.get(ino) {
            Ok(h) => h,
            Err(e) => {
                let _ = self.handle_mgr.del(ino);
                return CloseStep::Finish { closes: Vec::new(), result: e };
            },
        };
        let mut closes: Vec<CloseRequest> = Vec::new();
        let mut i: usize = 0;
        while i < handle.segments.len()
            invariant
                i <= handle.segments.len(),
                closes@.len() == i,
                forall|j: int|
                    0 <= j < i ==> (#[trigger] closes@[j]) == (CloseRequest {
                        worker: owner_of(
                            handle.segments@[j].seg_id0,
                            handle.segments@[j].seg_id1,
                            self.workers(),
                        ) as u32,
                        id0: handle.segments@[j].seg_id0,
                        id1: handle.segments@[j].seg_id1,
                    }),
            decreases handle.segments.len() - i,
        {
            let s = &handle.segments[i];
            closes.push(
                CloseRequest {
                    worker: self.disk_io_pool.get_thread(s.seg_id0, s.seg_id1),
                    id0: s.seg_id0,
                    id1: s.seg_id1,
                },
            );
            i += 1;
        }
        assert(closes@ =~= close_requests(handle@.segments, self.workers()));
        let result = self.handle_mgr.del(ino);
        CloseStep::Finish { closes, result }
    }

    /// Releases the leader: every later operation fails.
    pub fn release(&mut self)
        requires
            old(self).wf(),
        ensures
            final(self).wf(),
            final(self).released(),
            final(self).same_config(old(self)),
            final(self).table() == old(self).table(),
    {
        self.handle_mgr.stop();
    }
}

/// What the metadata service gave, as plain values.
pub open spec fn fetched_view(fetched: Result<Vec<MetaSegment>, Errno>) -> Result<
    Seq<MetaSegmentView>,
    Errno,
> {
    match fetched {
        Ok(metas) => Ok(meta_views(metas@)),
        Err(e) => Err(e),
    }
}

} // verus!
