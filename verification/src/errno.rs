//! The error kinds shared by every component.

use vstd::prelude::*;

verus! {

/// Outcome of an operation: success or one of the failure kinds.
#[derive(Clone, Copy, Debug, PartialEq, Eq, Structural)]
pub enum Errno {
    Esucc,
    Enoent,
    Eintr,
    Eaccess,
    Eeof,
    Enospc,
    Ebadf,
    Ealready,
    Enotf,
}

impl Errno {
    pub fn is_success(&self) -> (b: bool)
        ensures
            b == (*self == Errno::Esucc),
    {
        matches!(self, Errno::Esucc)
    }

    pub fn is_enoent(&self) -> (b: bool)
        ensures
            b == (*self == Errno::Enoent),
    {
        matches!(self, Errno::Enoent)
    }

    pub fn is_eof(&self) -> (b: bool)
        ensures
            b == (*self == Errno::Eeof),
    {
        matches!(self, Errno::Eeof)
    }

    pub fn is_enospc(&self) -> (b: bool)
        ensures
            b == (*self == Errno::Enospc),
    {
        matches!(self, Errno::Enospc)
    }
}

} // verus!
