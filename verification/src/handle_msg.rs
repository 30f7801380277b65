//! The handle table behind a channel.
//!
//! The task that owns the table takes one message at a time. A message
//! that wants an answer carries the sending half of a channel of capacity
//! one; the task sends exactly one answer on it and drops it.

use vstd::prelude::*;
use crate::errno::Errno;
use crate::file_handle::FileHandle;
use crate::handle_mgr::{
    table_add_block, table_add_segment, table_has_segment, table_tail, FileHandleMgr, Table,
    TailSegment,
};
use crate::types::{Block, Segment};

verus! {

#[verifier::external_type_specification]
#[verifier::external_body]
#[verifier::reject_recursive_types(T)]
pub struct ExSender<T>(crossbeam_channel::Sender<T>);

/// Sends `msg` with `crossbeam_channel::Sender::send`, which blocks while
/// the channel is full and fails once every receiver is gone. The result
/// says whether the message was taken; nothing is claimed of it.
#[verifier::external_body]
fn send_answer<T>(tx: &crossbeam_channel::Sender<T>, msg: T) -> bool {
    tx.send(msg).is_ok()
}

/// Asks for a copy of the handle of `ino`.
pub struct MsgQueryHandle {
    pub ino: u64,
    pub tx: crossbeam_channel::Sender<Result<FileHandle, Errno>>,
}

/// Asks to forget the handle of `ino`.
pub struct MsgDelHandle {
    pub ino: u64,
    pub tx: crossbeam_channel::Sender<Errno>,
}

/// Asks to append `segment` to the handle of `ino`.
pub struct MsgAddSegment {
    pub ino: u64,
    pub segment: Segment,
    pub tx: crossbeam_channel::Sender<Errno>,
}

/// Asks to append `block` to segment `(id0, id1)` of the handle of `ino`.
pub struct MsgAddBlock {
    pub ino: u64,
    pub id0: u64,
    pub id1: u64,
    pub block: Block,
    pub tx: crossbeam_channel::Sender<Errno>,
}

/// Asks for the tail segment of the handle of `ino`.
pub struct MsgQueryTail {
    pub ino: u64,
    pub tx: crossbeam_channel::Sender<Result<TailSegment, Errno>>,
}

/// A message to the task that owns the handle table.
pub enum MsgFileHandleOp {
    Add(FileHandle),
    Del(MsgDelHandle),
    Get(MsgQueryHandle),
    AddSegment(MsgAddSegment),
    AddBlock(MsgAddBlock),
    GetLastSegment(MsgQueryTail),
}

/// The table after the message `op` was handled.
pub open spec fn table_after_op(t: Table, op: MsgFileHandleOp) -> Table {
    match op {
        MsgFileHandleOp::Add(h) => t.insert(h.ino, h@),
        MsgFileHandleOp::Del(m) => t.remove(m.ino),
        MsgFileHandleOp::Get(_) => t,
        MsgFileHandleOp::AddSegment(m) => table_add_segment(t, m.ino, m.segment@),
        MsgFileHandleOp::AddBlock(m) => table_add_block(t, m.ino, m.id0, m.id1, m.block),
        MsgFileHandleOp::GetLastSegment(_) => t,
    }
}

/// The answer to a message, with the channel that takes it.
pub enum Answer {
    /// The message wants no answer.
    Nothing,
    Status(crossbeam_channel::Sender<Errno>, Errno),
    Handle(crossbeam_channel::Sender<Result<FileHandle, Errno>>, Result<FileHandle, Errno>),
    Tail(crossbeam_channel::Sender<Result<TailSegment, Errno>>, Result<TailSegment, Errno>),
}

/// The outcome of an operation that changes a handle which has to be
/// there, on a table that is stopped or not.
pub open spec fn status_of(stopped: bool, found: bool) -> Errno {
    if stopped {
        Errno::Eintr
    } else if found {
        Errno::Esucc
    } else {
        Errno::Enoent
    }
}

/// Whether `answer` is the answer of the table `t` to the message `op`,
/// on the channel that the message carries.
pub open spec fn is_answer_to(answer: Answer, t: Table, stopped: bool, op: MsgFileHandleOp) -> bool {
    match op {
        MsgFileHandleOp::Add(_) => answer is Nothing,
        MsgFileHandleOp::Del(m) => answer matches Answer::Status(tx, e) && tx == m.tx && e
            == status_of(stopped, t.contains_key(m.ino)),
        MsgFileHandleOp::Get(m) => answer matches Answer::Handle(tx, r) && tx == m.tx && match r {
            Ok(h) => !stopped && t.contains_key(m.ino) && h@ == t[m.ino],
            Err(e) => e == status_of(stopped, false) && (stopped || !t.contains_key(m.ino)),
        },
        MsgFileHandleOp::AddSegment(m) => answer matches Answer::Status(tx, e) && tx == m.tx && e
            == status_of(stopped, t.contains_key(m.ino)),
        MsgFileHandleOp::AddBlock(m) => answer matches Answer::Status(tx, e) && tx == m.tx && e
            == status_of(stopped, table_has_segment(t, m.ino, m.id0, m.id1)),
        MsgFileHandleOp::GetLastSegment(m) => answer matches Answer::Tail(tx, r) && tx == m.tx
            && r == if stopped {
            Err::<TailSegment, Errno>(Errno::Eintr)
        } else {
            match table_tail(t, m.ino) {
                Some(tail) => Ok(tail),
                None => Err(Errno::Enoent),
            }
        },
    }
}

/// Sends an answer on its channel. An answer that nobody waits for is
/// dropped.
pub fn deliver(answer: Answer) {
    match answer {
        Answer::Nothing => {},
        Answer::Status(tx, e) => {
            let _ = send_answer(&tx, e);
        },
        Answer::Handle(tx, r) => {
            let _ = send_answer(&tx, r);
        },
        Answer::Tail(tx, r) => {
            let _ = send_answer(&tx, r);
        },
    }
}

impl FileHandleMgr {
    /// Applies one message to the table and gives the answer to send, if
    /// the message wants one. A stopped table stays as it is.
    pub fn apply(&mut self, op: MsgFileHandleOp) -> (answer: Answer)
        requires
            old(self).wf(),
        ensures
            final(self).wf(),
            final(self).is_stopped() == old(self).is_stopped(),
            final(self)@ == if old(self).is_stopped() {
                old(self)@
            } else {
                table_after_op(old(self)@, op)
            },
            is_answer_to(answer, old(self)@, old(self).is_stopped(), op),
    {
        match op {
            MsgFileHandleOp::Add(h) => {
                self.add(&h);
                Answer::Nothing
            },
            MsgFileHandleOp::Del(m) => {
                let e = self.del(m.ino);
                Answer::Status(m.tx, e)
            },
            MsgFileHandleOp::Get(m) => {
                let r = self.get(m.ino);
                Answer::Handle(m.tx, r)
            },
            MsgFileHandleOp::AddSegment(m) => {
                let e = self.add_segment(m.ino, &m.segment);
                Answer::Status(m.tx, e)
            },
            MsgFileHandleOp::AddBlock(m) => {
                let e = self.add_block(m.ino, m.id0, m.id1, &m.block);
                Answer::Status(m.tx, e)
            },
            MsgFileHandleOp::GetLastSegment(m) => {
                let r = self.get_last_segment(m.ino);
                Answer::Tail(m.tx, r)
            },
        }
    }

    /// Handles one message: applies it to the table and sends the answer,
    /// if the message wants one, exactly once.
    pub fn process(&mut self, op: MsgFileHandleOp)
        requires
            old(self).wf(),
        ensures
            final(self).wf(),
            final(self).is_stopped() == old(self).is_stopped(),
            final(self)@ == if old(self).is_stopped() {
                old(self)@
            } else {
                table_after_op(old(self)@, op)
            },
    {
        let answer = self.apply(op);
        deliver(answer);
    }
}

} // verus!
