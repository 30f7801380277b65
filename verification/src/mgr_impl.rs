//! The client of the metadata service: the requests it makes and what it
//! takes an answer to mean. Sending a request and turning text into
//! values is left to the caller.

use vstd::prelude::*;
use vstd::string::StringExecFns;
use crate::errno::Errno;
use crate::http_client::HttpMethod;
use crate::meta_types::{
    file_type_of, Config, DirEntry, FileAttr, FileLeader, FileType, MsgDirEntry, MsgFileAttr,
    ReqDirFileAttr, ReqFileAttr, ReqFileLeader, ReqFileSegments, ReqMount, ReqReadDir,
    ReqUpdateSegments, RespDirFileAttr, RespFileAttr, RespFileLeader, RespFileSegments,
    RespReadDir, RespResult,
};
use crate::types::MetaSegment;

verus! {

/// The calls that the service offers.
#[derive(Clone, Copy, Debug, PartialEq, Eq, Structural)]
pub enum Rpc {
    Mount,
    ReadDir,
    FileAttr,
    DirFileAttr,
    FileLeader,
    FileSegments,
    UpdateSegments,
}

/// The path of a call below the address of the service.
pub open spec fn rpc_path(rpc: Rpc) -> Seq<char> {
    match rpc {
        Rpc::Mount => "/v1/dir"@,
        Rpc::ReadDir => "/v1/dir/files"@,
        Rpc::FileAttr => "/v1/file/attr"@,
        Rpc::DirFileAttr => "/v1/dir/file/attr"@,
        Rpc::FileLeader => "/v1/file/leader"@,
        Rpc::FileSegments => "/v1/file/segments"@,
        Rpc::UpdateSegments => "/v1/file/segments"@,
    }
}

/// The method of a call: `Put` for the calls that change something,
/// `Get` for the others.
pub open spec fn rpc_method(rpc: Rpc) -> HttpMethod {
    match rpc {
        Rpc::Mount => HttpMethod::Put,
        Rpc::UpdateSegments => HttpMethod::Put,
        _ => HttpMethod::Get,
    }
}

/// The business code of an empty result.
pub const ERR_NO_ENTRIES: i64 = 40003;

/// What an answer means: without an answer, with a status of 300 or more,
/// or without a readable result the call failed with `Eintr`; otherwise
/// code 0 is success, the code of an empty result is `Enoent`, and any
/// other code is `Eintr`.
pub open spec fn answer_errno(status: Option<u16>, err_code: Option<i64>) -> Errno {
    match status {
        None => Errno::Eintr,
        Some(s) => if s >= 300 {
            Errno::Eintr
        } else {
            match err_code {
                None => Errno::Eintr,
                Some(c) => if c == 0 {
                    Errno::Esucc
                } else if c == ERR_NO_ENTRIES {
                    Errno::Enoent
                } else {
                    Errno::Eintr
                },
            }
        },
    }
}

/// What the answer to an update means: as any answer, but an answer with
/// a good status and no result counts as a success.
pub open spec fn update_errno(status: Option<u16>, err_code: Option<i64>) -> Errno {
    match err_code {
        Some(c) => answer_errno(status, Some(c)),
        None => answer_errno(status, Some(0)),
    }
}

/// What an answer means.
pub fn check_answer(status: Option<u16>, err_code: Option<i64>) -> (e: Errno)
    ensures
        e == answer_errno(status, err_code),
{
    match status {
        None => Errno::Eintr,
        Some(s) => if s >= 300 {
            Errno::Eintr
        } else {
            match err_code {
                None => Errno::Eintr,
                Some(c) => if c == 0 {
                    Errno::Esucc
                } else if c == ERR_NO_ENTRIES {
                    Errno::Enoent
                } else {
                    Errno::Eintr
                },
            }
        },
    }
}

/// The attributes of a file as the service writes them, with the kind
/// decoded.
pub open spec fn file_attr_of(m: MsgFileAttr) -> FileAttr {
    FileAttr {
        ino: m.ino,
        generation: m.generation,
        size: m.size,
        blocks: m.blocks,
        atime: m.atime,
        mtime: m.mtime,
        ctime: m.ctime,
        kind: file_type_of(m.kind),
        perm: m.perm,
        nlink: m.nlink,
        uid: m.uid,
        gid: m.gid,
        rdev: m.rdev,
        flags: m.flags,
    }
}

/// Whether `e` is the directory entry that the service wrote as `m`.
pub open spec fn is_entry_of(e: DirEntry, m: MsgDirEntry) -> bool {
    e.ino == m.ino && e.file_type == file_type_of(m.dir_entry_type) && e.name@ == m.name@
}

pub struct MetaServiceMgrImpl {
    meta_server_url: String,
    region: String,
    bucket: String,
    zone: String,
    machine: String,
}

impl MetaServiceMgrImpl {
    pub closed spec fn url(&self) -> Seq<char> {
        self.meta_server_url@
    }

    pub closed spec fn region(&self) -> Seq<char> {
        self.region@
    }

    pub closed spec fn bucket(&self) -> Seq<char> {
        self.bucket@
    }

    pub closed spec fn zone(&self) -> Seq<char> {
        self.zone@
    }

    pub closed spec fn machine(&self) -> Seq<char> {
        self.machine@
    }

    /// The client that `meta_cfg` describes.
    pub fn new(meta_cfg: &Config) -> (r: Result<MetaServiceMgrImpl, String>)
        ensures
            r matches Ok(m) && m.url() == meta_cfg.metaserver_config.meta_server@ && m.region()
                == meta_cfg.s3_config.region@ && m.bucket() == meta_cfg.s3_config.bucket@
                && m.zone() == meta_cfg.zone_config.zone@ && m.machine()
                == meta_cfg.zone_config.machine@,
    {
        Ok(
            MetaServiceMgrImpl {
                meta_server_url: meta_cfg.metaserver_config.meta_server.clone(),
                region: meta_cfg.s3_config.region.clone(),
                bucket: meta_cfg.s3_config.bucket.clone(),
                zone: meta_cfg.zone_config.zone.clone(),
                machine: meta_cfg.zone_config.machine.clone(),
            },
        )
    }

    /// The method and the URL of a call.
    pub fn endpoint(&self, rpc: Rpc) -> (r: (HttpMethod, String))
        ensures
            r.0 == rpc_method(rpc),
            r.1@ == self.url() + rpc_path(rpc),
    {
        let path = match rpc {
            Rpc::Mount => "/v1/dir",
            Rpc::ReadDir => "/v1/dir/files",
            Rpc::FileAttr => "/v1/file/attr",
            Rpc::DirFileAttr => "/v1/dir/file/attr",
            Rpc::FileLeader => "/v1/file/leader",
            Rpc::FileSegments => "/v1/file/segments",
            Rpc::UpdateSegments => "/v1/file/segments",
        };
        let method = match rpc {
            Rpc::Mount => HttpMethod::Put,
            Rpc::UpdateSegments => HttpMethod::Put,
            _ => HttpMethod::Get,
        };
        (method, self.meta_server_url.clone().concat(path))
    }

    pub fn mount_request(&self) -> (req: ReqMount)
        ensures
            req.region@ == self.region(),
            req.bucket@ == self.bucket(),
            req.zone@ == self.zone(),
            req.machine@ == self.machine(),
    {
        ReqMount {
            region: self.region.clone(),
            bucket: self.bucket.clone(),
            zone: self.zone.clone(),
            machine: self.machine.clone(),
        }
    }

    /// The outcome of a mount: it succeeded if an answer came with a
    /// status below 300.
    pub fn mount(&self, status: Option<u16>) -> (r: Result<(), Errno>)
        ensures
            r == if status matches Some(s) && s < 300 {
                Ok::<(), Errno>(())
            } else {
                Err::<(), Errno>(Errno::Eintr)
            },
    {
        match status {
            Some(s) => if s < 300 {
                Ok(())
            } else {
                Err(Errno::Eintr)
            },
            None => Err(Errno::Eintr),
        }
    }

    pub fn read_dir_request(&self, ino: u64, offset: i64) -> (req: ReqReadDir)
        ensures
            req.region@ == self.region(),
            req.bucket@ == self.bucket(),
            req.ino == ino,
            req.offset == offset,
    {
        ReqReadDir { region: self.region.clone(), bucket: self.bucket.clone(), ino, offset }
    }

    /// The entries of a directory from the answer to `read_dir_request`:
    /// one entry for each file of the answer, in order.
    pub fn read_dir(&self, status: Option<u16>, decoded: Option<&RespReadDir>) -> (r: Result<
        Vec<DirEntry>,
        Errno,
    >)
        ensures
            match r {
                Ok(entries) => decoded matches Some(d) && answer_errno(
                    status,
                    Some(d.result.err_code),
                ) == Errno::Esucc && entries@.len() == d.files@.len() && forall|i: int|
                    0 <= i < entries@.len() ==> is_entry_of(#[trigger] entries@[i], d.files@[i]),
                Err(e) => e != Errno::Esucc && e == answer_errno(
                    status,
                    match decoded {
                        Some(d) => Some(d.result.err_code),
                        None => None,
                    },
                ),
            },
    {
        let d = match decoded {
            Some(d) => d,
            None => {
                return Err(check_answer(status, None));
            },
        };
        let e = check_answer(status, Some(d.result.err_code));
        if !e.is_success() {
            return Err(e);
        }
        let mut entries: Vec<DirEntry> = Vec::new();
        let mut i: usize = 0;
        while i < d.files.len()
            invariant
                i <= d.files.len(),
                entries@.len() == i,
                forall|j: int| 0 <= j < i ==> is_entry_of(#[trigger] entries@[j], d.files@[j]),
            decreases d.files.len() - i,
        {
            let f = &d.files[i];
            entries.push(
                DirEntry {
                    ino: f.ino,
                    file_type: FileType::from_code(f.dir_entry_type),
                    name: f.name.clone(),
                },
            );
            i += 1;
        }
        Ok(entries)
    }

    pub fn to_file_attr(&self, msg_attr: &MsgFileAttr) -> (attr: FileAttr)
        ensures
            attr == file_attr_of(*msg_attr),
    {
        FileAttr {
            ino: msg_attr.ino,
            generation: msg_attr.generation,
            size: msg_attr.size,
            blocks: msg_attr.blocks,
            atime: msg_attr.atime,
            mtime: msg_attr.mtime,
            ctime: msg_attr.ctime,
            kind: FileType::from_code(msg_attr.kind),
            perm: msg_attr.perm,
            nlink: msg_attr.nlink,
            uid: msg_attr.uid,
            gid: msg_attr.gid,
            rdev: msg_attr.rdev,
            flags: msg_attr.flags,
        }
    }

    pub fn file_attr_request(&self, ino: u64) -> (req: ReqFileAttr)
        ensures
            req.region@ == self.region(),
            req.bucket@ == self.bucket(),
            req.ino == ino,
    {
        ReqFileAttr { region: self.region.clone(), bucket: self.bucket.clone(), ino }
    }

    /// The attributes of a file from the answer to `file_attr_request`.
    pub fn read_file_attr(&self, status: Option<u16>, decoded: Option<&RespFileAttr>) -> (r:
        Result<FileAttr, Errno>)
        ensures
            match r {
                Ok(attr) => decoded matches Some(d) && answer_errno(
                    status,
                    Some(d.result.err_code),
                ) == Errno::Esucc && attr == file_attr_of(d.attr),
                Err(e) => e != Errno::Esucc && e == answer_errno(
                    status,
                    match decoded {
                        Some(d) => Some(d.result.err_code),
                        None => None,
                    },
                ),
            },
    {
        let d = match decoded {
            Some(d) => d,
            None => {
                return Err(check_answer(status, None));
            },
        };
        let e = check_answer(status, Some(d.result.err_code));
        if !e.is_success() {
            return Err(e);
        }
        Ok(self.to_file_attr(&d.attr))
    }

    pub fn dir_file_attr_request(&self, ino: u64, name: &String) -> (req: ReqDirFileAttr)
        ensures
            req.region@ == self.region(),
            req.bucket@ == self.bucket(),
            req.ino == ino,
            req.name@ == name@,
    {
        ReqDirFileAttr {
            region: self.region.clone(),
            bucket: self.bucket.clone(),
            ino,
            name: name.clone(),
        }
    }

    /// The attributes of a file of a directory from the answer to
    /// `dir_file_attr_request`.
    pub fn read_dir_file_attr(&self, status: Option<u16>, decoded: Option<&RespDirFileAttr>) -> (r:
        Result<FileAttr, Errno>)
        ensures
            match r {
                Ok(attr) => decoded matches Some(d) && answer_errno(
                    status,
                    Some(d.result.err_code),
                ) == Errno::Esucc && attr == file_attr_of(d.attr),
                Err(e) => e != Errno::Esucc && e == answer_errno(
                    status,
                    match decoded {
                        Some(d) => Some(d.result.err_code),
                        None => None,
                    },
                ),
            },
    {
        let d = match decoded {
            Some(d) => d,
            None => {
                return Err(check_answer(status, None));
            },
        };
        let e = check_answer(status, Some(d.result.err_code));
        if !e.is_success() {
            return Err(e);
        }
        Ok(self.to_file_attr(&d.attr))
    }

    pub fn file_leader_request(&self, ino: u64, flag: u8) -> (req: ReqFileLeader)
        ensures
            req.region@ == self.region(),
            req.bucket@ == self.bucket(),
            req.zone@ == self.zone(),
            req.machine@ == self.machine(),
            req.ino == ino,
            req.flag == flag,
    {
        ReqFileLeader {
            region: self.region.clone(),
            bucket: self.bucket.clone(),
            zone: self.zone.clone(),
            machine: self.machine.clone(),
            ino,
            flag,
        }
    }

    /// The leader of file `ino` from the answer to `file_leader_request`.
    pub fn get_file_leader(&self, ino: u64, status: Option<u16>, decoded: Option<&RespFileLeader>)
        -> (r: Result<FileLeader, Errno>)
        ensures
            match r {
                Ok(l) => decoded matches Some(d) && answer_errno(status, Some(d.result.err_code))
                    == Errno::Esucc && l.ino == ino && l.zone@ == d.leader_info.zone@ && l.leader@
                    == d.leader_info.leader@,
                Err(e) => e != Errno::Esucc && e == answer_errno(
                    status,
                    match decoded {
                        Some(d) => Some(d.result.err_code),
                        None => None,
                    },
                ),
            },
    {
        let d = match decoded {
            Some(d) => d,
            None => {
                return Err(check_answer(status, None));
            },
        };
        let e = check_answer(status, Some(d.result.err_code));
        if !e.is_success() {
            return Err(e);
        }
        Ok(
            FileLeader {
                zone: d.leader_info.zone.clone(),
                leader: d.leader_info.leader.clone(),
                ino,
            },
        )
    }

    pub fn file_segments_request(&self, ino: u64) -> (req: ReqFileSegments)
        ensures
            req.region@ == self.region(),
            req.bucket@ == self.bucket(),
            req.ino == ino,
    {
        ReqFileSegments { region: self.region.clone(), bucket: self.bucket.clone(), ino }
    }

    /// The segments of a file from the answer to `file_segments_request`,
    /// as the service gave them.
    pub fn get_file_segments(&self, status: Option<u16>, decoded: Option<RespFileSegments>) -> (r:
        Result<Vec<MetaSegment>, Errno>)
        ensures
            match r {
                Ok(segments) => decoded matches Some(d) && answer_errno(
                    status,
                    Some(d.result.err_code),
                ) == Errno::Esucc && segments == d.segments,
                Err(e) => e != Errno::Esucc && e == answer_errno(
                    status,
                    match decoded {
                        Some(d) => Some(d.result.err_code),
                        None => None,
                    },
                ),
            },
    {
        let d = match decoded {
            Some(d) => d,
            None => {
                return Err(check_answer(status, None));
            },
        };
        let e = check_answer(status, Some(d.result.err_code));
        if !e.is_success() {
            return Err(e);
        }
        Ok(d.segments)
    }

    /// The request that replaces the segment list of file `ino`.
    pub fn update_segments_request(&self, ino: u64, segments: Vec<MetaSegment>) -> (req:
        ReqUpdateSegments)
        ensures
            req.region@ == self.region(),
            req.bucket@ == self.bucket(),
            req.ino == ino,
            req.segments == segments,
    {
        ReqUpdateSegments {
            region: self.region.clone(),
            bucket: self.bucket.clone(),
            ino,
            segments,
        }
    }

    /// The outcome of an update of a segment list: it succeeded if an
    /// answer came with a status below 300 and no business code other
    /// than 0.
    pub fn update_segments(&self, status: Option<u16>, decoded: Option<&RespResult>) -> (e: Errno)
        ensures
            e == update_errno(
                status,
                match decoded {
                    Some(d) => Some(d.err_code),
                    None => None,
                },
            ),
    {
        match decoded {
            Some(d) => check_answer(status, Some(d.err_code)),
            None => check_answer(status, Some(0)),
        }
    }
}

/// The client of the metadata service that `cfg` describes.
pub fn new_metaserver_mgr(cfg: &Config) -> (r: Result<std::rc::Rc<MetaServiceMgrImpl>, String>)
    ensures
        r matches Ok(m) && m.url() == cfg.metaserver_config.meta_server@ && m.region()
            == cfg.s3_config.region@ && m.bucket() == cfg.s3_config.bucket@ && m.zone()
            == cfg.zone_config.zone@ && m.machine() == cfg.zone_config.machine@,
{
    match MetaServiceMgrImpl::new(cfg) {
        Ok(m) => Ok(std::rc::Rc::new(m)),
        Err(e) => Err(e),
    }
}

} // verus!
