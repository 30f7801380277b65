//! What the metadata service and its clients exchange.

use vstd::prelude::*;
use crate::types::MetaSegment;

verus! {

/// The kind of a directory entry.
#[derive(Clone, Copy, Debug, PartialEq, Eq, Structural)]
pub enum FileType {
    Unknown,
    File,
    Dir,
    Link,
}

/// The kind that the service writes as `code`.
pub open spec fn file_type_of(code: u8) -> FileType {
    if code == 1 {
        FileType::File
    } else if code == 2 {
        FileType::Dir
    } else if code == 3 {
        FileType::Link
    } else {
        FileType::Unknown
    }
}

impl FileType {
    pub fn from_code(code: u8) -> (t: FileType)
        ensures
            t == file_type_of(code),
    {
        match code {
            1 => FileType::File,
            2 => FileType::Dir,
            3 => FileType::Link,
            _ => FileType::Unknown,
        }
    }
}

#[derive(Debug)]
pub struct DirEntry {
    pub ino: u64,
    pub file_type: FileType,
    pub name: String,
}

#[derive(Clone, Copy, Debug, PartialEq, Eq, Structural)]
pub struct FileAttr {
    pub ino: u64,
    pub generation: u64,
    pub size: u64,
    pub blocks: u64,
    pub atime: i64,
    pub mtime: i64,
    pub ctime: i64,
    pub kind: FileType,
    pub perm: u16,
    pub nlink: u32,
    pub uid: u32,
    pub gid: u32,
    pub rdev: u32,
    pub flags: u32,
}

#[derive(Debug)]
pub struct FileLeader {
    pub zone: String,
    pub leader: String,
    pub ino: u64,
}

#[derive(Debug)]
pub struct NewFileInfo {
    pub leader_info: FileLeader,
    pub attr: FileAttr,
}

/// The outcome that every answer of the service carries.
#[derive(Debug)]
pub struct RespResult {
    pub err_code: i64,
    pub err_msg: String,
}

#[derive(Debug)]
pub struct ReqMount {
    pub region: String,
    pub bucket: String,
    pub zone: String,
    pub machine: String,
}

#[derive(Debug)]
pub struct ReqReadDir {
    pub region: String,
    pub bucket: String,
    pub ino: u64,
    pub offset: i64,
}

#[derive(Debug)]
pub struct MsgDirEntry {
    pub ino: u64,
    pub dir_entry_type: u8,
    pub name: String,
}

#[derive(Debug)]
pub struct RespReadDir {
    pub result: RespResult,
    pub files: Vec<MsgDirEntry>,
}

#[derive(Debug)]
pub struct ReqFileAttr {
    pub region: String,
    pub bucket: String,
    pub ino: u64,
}

#[derive(Debug)]
pub struct ReqDirFileAttr {
    pub region: String,
    pub bucket: String,
    pub ino: u64,
    pub name: String,
}

#[derive(Clone, Copy, Debug, PartialEq, Eq, Structural)]
pub struct MsgFileAttr {
    pub ino: u64,
    pub generation: u64,
    pub size: u64,
    pub blocks: u64,
    pub atime: i64,
    pub mtime: i64,
    pub ctime: i64,
    pub kind: u8,
    pub perm: u16,
    pub nlink: u32,
    pub uid: u32,
    pub gid: u32,
    pub rdev: u32,
    pub flags: u32,
}

#[derive(Debug)]
pub struct RespFileAttr {
    pub result: RespResult,
    pub attr: MsgFileAttr,
}

#[derive(Debug)]
pub struct RespDirFileAttr {
    pub result: RespResult,
    pub attr: MsgFileAttr,
}

#[derive(Debug)]
pub struct ReqFileLeader {
    pub region: String,
    pub bucket: String,
    pub zone: String,
    pub machine: String,
    pub ino: u64,
    pub flag: u8,
}

#[derive(Debug)]
pub struct MsgLeaderInfo {
    pub zone: String,
    pub leader: String,
}

#[derive(Debug)]
pub struct RespFileLeader {
    pub result: RespResult,
    pub leader_info: MsgLeaderInfo,
}

#[derive(Debug)]
pub struct ReqFileSegments {
    pub region: String,
    pub bucket: String,
    pub ino: u64,
}

#[derive(Debug)]
pub struct RespFileSegments {
    pub result: RespResult,
    pub segments: Vec<MetaSegment>,
}

#[derive(Debug)]
pub struct ReqUpdateSegments {
    pub region: String,
    pub bucket: String,
    pub ino: u64,
    pub segments: Vec<MetaSegment>,
}

/// Where the client finds the service and itself.
#[derive(Debug)]
pub struct MetaServerConfig {
    pub meta_server: String,
}

#[derive(Debug)]
pub struct S3Config {
    pub region: String,
    pub bucket: String,
}

#[derive(Debug)]
pub struct ZoneConfig {
    pub zone: String,
    pub machine: String,
}

#[derive(Debug)]
pub struct Config {
    pub metaserver_config: MetaServerConfig,
    pub s3_config: S3Config,
    pub zone_config: ZoneConfig,
}

} // verus!
