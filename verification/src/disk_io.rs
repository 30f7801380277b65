//! The rules of a disk worker: what it answers to a write or a read of a
//! segment file, given what the file holds.
//!
//! A segment file is a plain sequence of bytes that only grows at its end.
//! The worker that owns a segment handles its requests one at a time.

use vstd::prelude::*;
use vstd::string::StringExecFns;
use crate::errno::Errno;
use crate::text::{hex, push_hex};

verus! {

/// The files of the segments, by segment name. A segment without an entry
/// has an empty file.
pub type Disk = Map<(u64, u64), Seq<u8>>;

/// The bytes of the file of segment `(id0, id1)`.
pub open spec fn file_of(disk: Disk, id0: u64, id1: u64) -> Seq<u8> {
    if disk.contains_key((id0, id1)) {
        disk[(id0, id1)]
    } else {
        Seq::<u8>::empty()
    }
}

/// Answer to a write request.
#[derive(Clone, Copy, Debug, PartialEq, Eq, Structural)]
pub struct MsgFileWriteResp {
    pub id0: u64,
    pub id1: u64,
    /// Where the written bytes start in the segment file.
    pub offset: u64,
    pub nwrite: u32,
    pub err: Errno,
}

/// Answer to a read request.
#[derive(Debug)]
pub struct MsgFileReadData {
    pub data: Option<Vec<u8>>,
    pub err: Errno,
}

/// Whether `len` more bytes fit in a file of `cur` bytes that may hold
/// `max_size`.
pub open spec fn write_fits(cur: nat, len: nat, max_size: u64) -> bool {
    cur + len <= max_size
}

/// The answer to a request to append `len` bytes to segment `(id0, id1)`
/// whose file holds `cur` bytes: the bytes go to the end of the file if
/// they fit, and nothing is written if they do not.
pub open spec fn write_answer(id0: u64, id1: u64, cur: u64, len: u32, max_size: u64)
    -> MsgFileWriteResp {
    if write_fits(cur as nat, len as nat, max_size) {
        MsgFileWriteResp { id0, id1, offset: cur, nwrite: len, err: Errno::Esucc }
    } else {
        MsgFileWriteResp { id0, id1, offset: 0, nwrite: 0, err: Errno::Enospc }
    }
}

/// The disk after a request to append `data` to segment `(id0, id1)`.
pub open spec fn disk_after_write(disk: Disk, id0: u64, id1: u64, max_size: u64, data: Seq<u8>)
    -> Disk {
    let file = file_of(disk, id0, id1);
    if write_fits(file.len(), data.len(), max_size) {
        disk.insert((id0, id1), file + data)
    } else {
        disk
    }
}

/// Requests to one segment are handled one at a time, so the bytes of two
/// writes never mix: after two writes that fit, the file holds what it held
/// before, then all the bytes of the first write, then all the bytes of the
/// second. Every other file stays as it is.
pub proof fn lemma_writes_do_not_interleave(
    disk: Disk,
    id0: u64,
    id1: u64,
    max_size: u64,
    first: Seq<u8>,
    second: Seq<u8>,
)
    requires
        write_fits(file_of(disk, id0, id1).len(), first.len() + second.len(), max_size),
    ensures
        ({
            let after = disk_after_write(
                disk_after_write(disk, id0, id1, max_size, first),
                id0,
                id1,
                max_size,
                second,
            );
            &&& file_of(after, id0, id1) == file_of(disk, id0, id1) + first + second
            &&& forall|a: u64, b: u64| (a, b) != (id0, id1) ==> file_of(after, a, b) == file_of(disk, a, b)
        }),
{
}

/// A write that does not fit leaves every file as it is.
pub proof fn lemma_refused_write_changes_nothing(
    disk: Disk,
    id0: u64,
    id1: u64,
    max_size: u64,
    data: Seq<u8>,
)
    requires
        !write_fits(file_of(disk, id0, id1).len(), data.len(), max_size),
    ensures
        disk_after_write(disk, id0, id1, max_size, data) == disk,
{
}

/// How many bytes a read of `size` bytes at `offset` gives from a file of
/// `file_len` bytes; `None` at or past the end of the file.
pub open spec fn read_count(file_len: nat, offset: u64, size: u32) -> Option<nat> {
    if offset >= file_len {
        None
    } else if offset + size <= file_len {
        Some(size as nat)
    } else {
        Some((file_len - offset) as nat)
    }
}

/// The bytes that a read of `size` bytes at `offset` of `file` gives;
/// `None` at or past the end of the file.
pub open spec fn read_answer(file: Seq<u8>, offset: u64, size: u32) -> Option<Seq<u8>> {
    match read_count(file.len(), offset, size) {
        Some(n) => Some(file.subrange(offset as int, offset + n)),
        None => None,
    }
}

/// Decides a write before any byte is written: `Ok` with the offset at
/// which the bytes will start, or `Err` with the refusal to send back.
pub fn plan_write(id0: u64, id1: u64, cur: u64, len: u32, max_size: u64) -> (plan: Result<
    u64,
    MsgFileWriteResp,
>)
    ensures
        match plan {
            Ok(at) => write_fits(cur as nat, len as nat, max_size) && at == cur,
            Err(resp) => !write_fits(cur as nat, len as nat, max_size) && resp == write_answer(
                id0,
                id1,
                cur,
                len,
                max_size,
            ),
        },
{
    if len as u64 > max_size || cur > max_size - len as u64 {
        Err(MsgFileWriteResp { id0, id1, offset: 0, nwrite: 0, err: Errno::Enospc })
    } else {
        Ok(cur)
    }
}

/// The answer to a write that was planned at `at` and ended with `err`:
/// on success the receipt of `len` bytes at `at`, otherwise the error.
pub fn write_outcome(id0: u64, id1: u64, at: u64, len: u32, err: Errno) -> (resp: MsgFileWriteResp)
    ensures
        resp == if err == Errno::Esucc {
            MsgFileWriteResp { id0, id1, offset: at, nwrite: len, err: Errno::Esucc }
        } else {
            MsgFileWriteResp { id0, id1, offset: 0, nwrite: 0, err }
        },
{
    if err.is_success() {
        MsgFileWriteResp { id0, id1, offset: at, nwrite: len, err: Errno::Esucc }
    } else {
        MsgFileWriteResp { id0, id1, offset: 0, nwrite: 0, err }
    }
}

/// Where a write stands after one attempt to write what is left.
#[derive(Clone, Copy, Debug, PartialEq, Eq, Structural)]
pub enum WriteProgress {
    /// All bytes are written.
    Complete,
    /// This many bytes are written so far; write the rest.
    More(usize),
    /// The attempt wrote nothing, or more than was left.
    Stalled,
}

/// Accounts for one attempt that wrote `n` bytes when `done` of `total`
/// were already written. A short write asks for another attempt; an
/// attempt without progress ends the write.
pub fn after_write(total: usize, done: usize, n: usize) -> (p: WriteProgress)
    requires
        done < total,
    ensures
        p == if n == 0 || n > total - done {
            WriteProgress::Stalled
        } else if done + n == total {
            WriteProgress::Complete
        } else {
            WriteProgress::More((done + n) as usize)
        },
{
    if n == 0 || n > total - done {
        WriteProgress::Stalled
    } else if done + n == total {
        WriteProgress::Complete
    } else {
        WriteProgress::More(done + n)
    }
}

/// Decides a read of `size` bytes at `offset` of a file of `file_len`
/// bytes: how many bytes to read, or `None` for end of file.
pub fn plan_read(file_len: u64, offset: u64, size: u32) -> (count: Option<u32>)
    ensures
        match count {
            Some(n) => read_count(file_len as nat, offset, size) == Some(n as nat),
            None => read_count(file_len as nat, offset, size) is None,
        },
{
    if offset >= file_len {
        None
    } else if file_len - offset >= size as u64 {
        Some(size)
    } else {
        Some((file_len - offset) as u32)
    }
}

/// The answer to a read that found the end of the file.
pub fn read_eof() -> (resp: MsgFileReadData)
    ensures
        resp.err == Errno::Eeof,
        resp.data is None,
{
    MsgFileReadData { data: None, err: Errno::Eeof }
}

/// The answer to a read that gave `data`.
pub fn read_done(data: Vec<u8>) -> (resp: MsgFileReadData)
    ensures
        resp.err == Errno::Esucc,
        resp.data == Some(data),
{
    MsgFileReadData { data: Some(data), err: Errno::Esucc }
}

/// The path of the file of segment `(id0, id1)` under `dir`: the
/// directory, a slash, and the two halves of the name in hexadecimal.
pub open spec fn segment_path(dir: Seq<char>, id0: u64, id1: u64) -> Seq<char> {
    dir + seq!['/'] + hex(id0) + hex(id1)
}

/// The path of the file of segment `(id0, id1)` under `dir`.
pub fn segment_file_path(dir: &String, id0: u64, id1: u64) -> (path: String)
    ensures
        path@ == segment_path(dir@, id0, id1),
{
    let mut path = dir.clone();
    proof {
        reveal_strlit("/");
    }
    path.append("/");
    assert(path@ =~= dir@ + seq!['/']);
    push_hex(&mut path, id0);
    push_hex(&mut path, id1);
    path
}

} // verus!
