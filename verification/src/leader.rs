//! What a leader offers: the operations on the files that one machine
//! owns.

use vstd::prelude::*;
use crate::errno::Errno;
use crate::types::BlockIo;

verus! {

pub trait Leader {
    /// Opens the segments of `ino` for I/O.
    fn open(&mut self, ino: u64) -> Errno;

    /// Reads up to `size` bytes of `ino` from `offset` on.
    fn read(&mut self, ino: u64, offset: u64, size: u32) -> Result<Vec<u8>, Errno>;

    /// Appends `data` to the tail segment of `ino` and records it as the
    /// bytes of the file at `offset`.
    fn write(&mut self, ino: u64, offset: u64, data: &[u8]) -> Result<BlockIo, Errno>;

    /// Commits the segments of `ino` and forgets its handle.
    fn close(&mut self, ino: u64) -> Errno;

    /// Releases the leader.
    fn release(&mut self);
}

} // verus!
