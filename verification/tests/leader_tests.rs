use std::collections::HashMap;

use yigfs_client::disk_io::{
    plan_read, plan_write, read_done, read_eof, write_outcome, MsgFileReadData, MsgFileWriteResp,
};
use yigfs_client::errno::Errno;
use yigfs_client::leader_local::{CloseStep, LeaderLocal, OpenStep, ReadStep, WriteStep};
use yigfs_client::segment_mgr::SegmentMgr;
use yigfs_client::types::{Block, BlockIo, MetaBlock, MetaSegment};

/// A leader with disk workers and a metadata service that live in memory.
struct Sim {
    leader: LeaderLocal,
    machine: String,
    disk: HashMap<(u64, u64), Vec<u8>>,
    meta: HashMap<u64, Vec<MetaSegment>>,
    update_error: Option<Errno>,
    opened: Vec<(u64, u64)>,
    closed: Vec<(u64, u64)>,
}

fn copy_meta(m: &MetaSegment) -> MetaSegment {
    MetaSegment {
        seg_id0: m.seg_id0,
        seg_id1: m.seg_id1,
        leader: m.leader.clone(),
        max_size: m.max_size,
        blocks: m.blocks.iter().map(|b: &MetaBlock| *b).collect(),
    }
}

fn empty_segment(id0: u64, id1: u64, leader: &str, max_size: u64) -> MetaSegment {
    MetaSegment { seg_id0: id0, seg_id1: id1, leader: String::from(leader), max_size, blocks: Vec::new() }
}

impl Sim {
    fn new(machine: &str, segment_size: u64) -> Sim {
        let mgr = SegmentMgr::new(&String::from("/data"), 4, segment_size);
        Sim {
            leader: LeaderLocal::new(&String::from(machine), 3, mgr),
            machine: String::from(machine),
            disk: HashMap::new(),
            meta: HashMap::new(),
            update_error: None,
            opened: Vec::new(),
            closed: Vec::new(),
        }
    }

    /// A leader that was just started on the same disk and metadata.
    fn restart(self, segment_size: u64) -> Sim {
        let mgr = SegmentMgr::new(&String::from("/data"), 4, segment_size);
        Sim {
            leader: LeaderLocal::new(&self.machine, 3, mgr),
            machine: self.machine,
            disk: self.disk,
            meta: self.meta,
            update_error: None,
            opened: Vec::new(),
            closed: Vec::new(),
        }
    }

    fn open(&mut self, ino: u64) -> Errno {
        let mut step = self.leader.open_begin(ino);
        loop {
            step = match step {
                OpenStep::Done(e) => return e,
                OpenStep::FetchSegments => {
                    let segments = match self.meta.get(&ino) {
                        Some(v) => v.iter().map(copy_meta).collect(),
                        None => Vec::new(),
                    };
                    self.leader.open_segments(ino, Ok(segments))
                }
                OpenStep::Open(state, req) => {
                    assert!(req.worker < 3);
                    self.opened.push((req.id0, req.id1));
                    self.disk.entry((req.id0, req.id1)).or_insert_with(Vec::new);
                    self.leader.open_reply(ino, state, Some(Errno::Esucc))
                }
            };
        }
    }

    fn worker_write(&mut self, id0: u64, id1: u64, max_size: u64, data: &[u8]) -> MsgFileWriteResp {
        let file = self.disk.entry((id0, id1)).or_insert_with(Vec::new);
        match plan_write(id0, id1, file.len() as u64, data.len() as u32, max_size) {
            Err(refusal) => refusal,
            Ok(at) => {
                file.extend_from_slice(data);
                write_outcome(id0, id1, at, data.len() as u32, Errno::Esucc)
            }
        }
    }

    fn write(&mut self, ino: u64, offset: u64, data: &[u8]) -> Result<BlockIo, Errno> {
        let mut step = self.leader.write_begin(ino, offset);
        loop {
            step = match step {
                WriteStep::Done(r) => return r,
                WriteStep::Dispatch(req) => {
                    assert_eq!(req.offset, offset);
                    let resp = self.worker_write(req.id0, req.id1, req.max_size, data);
                    self.leader.write_reply(ino, offset, req.id0, req.id1, Some(resp))
                }
            };
        }
    }

    fn worker_read(&self, id0: u64, id1: u64, offset: u64, size: u32) -> MsgFileReadData {
        let empty: Vec<u8> = Vec::new();
        let file = self.disk.get(&(id0, id1)).unwrap_or(&empty);
        match plan_read(file.len() as u64, offset, size) {
            None => read_eof(),
            Some(n) => {
                let from = offset as usize;
                read_done(file[from..from + n as usize].to_vec())
            }
        }
    }

    fn read(&mut self, ino: u64, offset: u64, size: u32) -> Result<Vec<u8>, Errno> {
        let mut step = self.leader.read_begin(ino, offset, size);
        loop {
            step = match step {
                ReadStep::Done(r) => return r,
                ReadStep::Fetch(state, req) => {
                    let resp = self.worker_read(req.id0, req.id1, req.offset, req.size);
                    self.leader.read_reply(state, Some(resp))
                }
            };
        }
    }

    fn close(&mut self, ino: u64) -> Errno {
        let mut step = self.leader.close_begin(ino);
        loop {
            step = match step {
                CloseStep::Finish { closes, result } => {
                    for c in closes.iter() {
                        self.closed.push((c.id0, c.id1));
                    }
                    return result;
                }
                CloseStep::Update(metas) => match self.update_error {
                    Some(e) => self.leader.close_updated(ino, e),
                    None => {
                        self.meta.insert(ino, metas);
                        self.leader.close_updated(ino, Errno::Esucc)
                    }
                },
            };
        }
    }
}

fn block(ino: u64, offset: u64, start: u64, end: u64) -> Block {
    Block {
        ino,
        generation: 0,
        offset,
        seg_start_addr: start,
        seg_end_addr: end,
        size: (end - start) as i64,
    }
}

#[test]
fn happy_write_records_one_block() {
    let mut sim = Sim::new("m1", 64);
    sim.meta.insert(7, vec![empty_segment(1, 2, "m1", 64)]);
    assert_eq!(sim.open(7), Errno::Esucc);
    let io = sim.write(7, 0, b"hello").unwrap();
    assert_eq!(io, BlockIo { id0: 1, id1: 2, offset: 0, size: 5 });
    let h = sim.leader.handle(7).unwrap();
    assert_eq!(h.segments.len(), 1);
    assert_eq!(h.segments[0].blocks, vec![block(7, 0, 0, 5)]);
    assert_eq!(sim.disk.get(&(1, 2)).unwrap().as_slice(), b"hello");
}

#[test]
fn full_tail_spills_to_new_segment() {
    let mut sim = Sim::new("m1", 8);
    sim.meta.insert(7, vec![empty_segment(1, 2, "m1", 8)]);
    assert_eq!(sim.open(7), Errno::Esucc);
    let first = sim.write(7, 0, b"abcdefg").unwrap();
    assert_eq!(first, BlockIo { id0: 1, id1: 2, offset: 0, size: 7 });
    let second = sim.write(7, 7, b"hi").unwrap();
    assert_eq!(second.offset, 0);
    assert_eq!(second.size, 2);
    let h = sim.leader.handle(7).unwrap();
    assert_eq!(h.segments.len(), 2);
    assert_eq!(h.segments[0].blocks, vec![block(7, 0, 0, 7)]);
    assert_eq!(h.segments[1].blocks, vec![block(7, 7, 0, 2)]);
    assert_eq!(h.segments[1].seg_id0, second.id0);
    assert_eq!(h.segments[1].seg_id1, second.id1);
    assert_eq!(h.segments[1].max_size, 8);
    assert_eq!(h.segments[1].leader, "m1");
    assert_eq!(sim.disk.get(&(1, 2)).unwrap().as_slice(), b"abcdefg");
}

#[test]
fn read_spans_blocks_of_two_segments() {
    let mut sim = Sim::new("m1", 8);
    sim.meta.insert(7, vec![empty_segment(1, 2, "m1", 8)]);
    assert_eq!(sim.open(7), Errno::Esucc);
    sim.write(7, 0, b"abcdefg").unwrap();
    sim.write(7, 7, b"hi").unwrap();
    assert_eq!(sim.read(7, 0, 9).unwrap(), b"abcdefghi".to_vec());
}

#[test]
fn read_translates_file_offset_to_segment_offset() {
    let mut sim = Sim::new("m1", 64);
    sim.meta.insert(7, vec![empty_segment(1, 2, "m1", 64)]);
    sim.disk.insert((1, 2), b"xxxx".to_vec());
    assert_eq!(sim.open(7), Errno::Esucc);
    let io = sim.write(7, 0, b"hello").unwrap();
    assert_eq!(io.offset, 4);
    assert_eq!(sim.read(7, 0, 5).unwrap(), b"hello".to_vec());
    assert_eq!(sim.read(7, 2, 3).unwrap(), b"llo".to_vec());
}

#[test]
fn close_failure_is_recoverable() {
    let mut sim = Sim::new("m1", 64);
    sim.meta.insert(7, vec![empty_segment(1, 2, "m1", 64)]);
    assert_eq!(sim.open(7), Errno::Esucc);
    sim.write(7, 0, b"hello").unwrap();
    sim.update_error = Some(Errno::Eintr);
    assert_eq!(sim.close(7), Errno::Eintr);
    assert!(sim.leader.handle(7).is_ok());
    assert!(sim.closed.is_empty());
    sim.update_error = None;
    assert_eq!(sim.close(7), Errno::Esucc);
    assert_eq!(sim.leader.handle(7).err(), Some(Errno::Enoent));
    assert_eq!(sim.closed, vec![(1, 2)]);
    assert_eq!(sim.close(7), Errno::Enoent);
}

#[test]
fn read_of_missing_inode_is_enoent() {
    let mut sim = Sim::new("m1", 64);
    assert_eq!(sim.read(99, 0, 1), Err(Errno::Enoent));
}

#[test]
fn write_to_file_without_handle_or_segment_is_enoent() {
    let mut sim = Sim::new("m1", 64);
    assert_eq!(sim.write(5, 0, b"x"), Err(Errno::Enoent));
    assert_eq!(sim.open(5), Errno::Esucc);
    assert_eq!(sim.write(5, 0, b"x"), Err(Errno::Enoent));
}

#[test]
fn reopen_is_idempotent() {
    let mut sim = Sim::new("m1", 64);
    sim.meta.insert(7, vec![empty_segment(1, 2, "m1", 64), empty_segment(3, 4, "m1", 64)]);
    assert_eq!(sim.open(7), Errno::Esucc);
    assert_eq!(sim.opened, vec![(1, 2), (3, 4)]);
    sim.write(7, 0, b"hello").unwrap();
    assert_eq!(sim.open(7), Errno::Esucc);
    assert_eq!(sim.opened, vec![(1, 2), (3, 4)]);
    assert_eq!(sim.leader.open_files(), 1);
    let h = sim.leader.handle(7).unwrap();
    assert_eq!(h.segments.len(), 2);
    assert_eq!(h.segments[1].blocks, vec![block(7, 0, 0, 5)]);
}

#[test]
fn open_fails_on_segment_of_another_machine() {
    let mut sim = Sim::new("m1", 64);
    sim.meta.insert(7, vec![empty_segment(1, 2, "m1", 64), empty_segment(3, 4, "m2", 64)]);
    assert_eq!(sim.open(7), Errno::Eintr);
    assert_eq!(sim.leader.open_files(), 0);
    assert!(sim.opened.is_empty());
}

#[test]
fn open_stops_at_first_worker_failure() {
    let mut sim = Sim::new("m1", 64);
    let step = sim.leader.open_begin(7);
    assert!(matches!(step, OpenStep::FetchSegments));
    let metas = vec![empty_segment(1, 2, "m1", 64), empty_segment(3, 4, "m1", 64)];
    let step = sim.leader.open_segments(7, Ok(metas));
    let state = match step {
        OpenStep::Open(state, req) => {
            assert_eq!((req.id0, req.id1), (1, 2));
            assert_eq!(req.dir, "/data/1/12/");
            state
        }
        _ => panic!("the first segment is opened first"),
    };
    let step = sim.leader.open_reply(7, state, Some(Errno::Esucc));
    let state = match step {
        OpenStep::Open(state, req) => {
            assert_eq!((req.id0, req.id1), (3, 4));
            state
        }
        _ => panic!("the second segment is opened next"),
    };
    let step = sim.leader.open_reply(7, state, Some(Errno::Eaccess));
    assert!(matches!(step, OpenStep::Done(Errno::Eaccess)));
    assert_eq!(sim.leader.open_files(), 0);
}

#[test]
fn open_passes_on_metadata_failure_and_lost_answer() {
    let mut sim = Sim::new("m1", 64);
    let step = sim.leader.open_segments(7, Err(Errno::Enoent));
    assert!(matches!(step, OpenStep::Done(Errno::Enoent)));
    let step = sim.leader.open_segments(7, Ok(vec![empty_segment(1, 2, "m1", 64)]));
    let state = match step {
        OpenStep::Open(state, _) => state,
        _ => panic!("the segment is opened"),
    };
    let step = sim.leader.open_reply(7, state, None);
    assert!(matches!(step, OpenStep::Done(Errno::Eintr)));
}

#[test]
fn close_persists_what_was_written() {
    let mut sim = Sim::new("m1", 8);
    sim.meta.insert(7, vec![empty_segment(1, 2, "m1", 8)]);
    assert_eq!(sim.open(7), Errno::Esucc);
    sim.write(7, 0, b"abcdefg").unwrap();
    sim.write(7, 7, b"hi").unwrap();
    let before = sim.read(7, 0, 9).unwrap();
    assert_eq!(sim.close(7), Errno::Esucc);
    let mut sim = sim.restart(8);
    assert_eq!(sim.leader.open_files(), 0);
    assert_eq!(sim.open(7), Errno::Esucc);
    assert_eq!(sim.read(7, 0, 9).unwrap(), before);
    assert_eq!(sim.read(7, 0, 9).unwrap(), b"abcdefghi".to_vec());
}

#[test]
fn write_then_read_round_trip() {
    let mut sim = Sim::new("m1", 64);
    sim.meta.insert(7, vec![empty_segment(1, 2, "m1", 64)]);
    let data = b"round trip data".to_vec();
    assert_eq!(sim.open(7), Errno::Esucc);
    sim.write(7, 0, &data).unwrap();
    assert_eq!(sim.close(7), Errno::Esucc);
    let mut sim = sim.restart(64);
    assert_eq!(sim.open(7), Errno::Esucc);
    assert_eq!(sim.read(7, 0, data.len() as u32).unwrap(), data);
}

#[test]
fn blocks_are_kept_in_write_order_and_end_to_end() {
    let mut sim = Sim::new("m1", 16);
    sim.meta.insert(7, vec![empty_segment(1, 2, "m1", 16)]);
    assert_eq!(sim.open(7), Errno::Esucc);
    sim.write(7, 0, b"aaaa").unwrap();
    sim.write(7, 4, b"bbbbbb").unwrap();
    sim.write(7, 10, b"cc").unwrap();
    sim.write(7, 12, b"ddddd").unwrap();
    let h = sim.leader.handle(7).unwrap();
    assert_eq!(h.segments.len(), 2);
    assert_eq!(
        h.segments[0].blocks,
        vec![block(7, 0, 0, 4), block(7, 4, 4, 10), block(7, 10, 10, 12)]
    );
    assert_eq!(h.segments[1].blocks, vec![block(7, 12, 0, 5)]);
    for s in h.segments.iter() {
        assert!(s.usage() <= s.max_size);
        for i in 1..s.blocks.len() {
            assert_eq!(
                s.blocks[i - 1].seg_start_addr + s.blocks[i - 1].size as u64,
                s.blocks[i].seg_start_addr
            );
        }
    }
}

#[test]
fn write_passes_on_worker_error_and_lost_answer() {
    let mut sim = Sim::new("m1", 64);
    sim.meta.insert(7, vec![empty_segment(1, 2, "m1", 64)]);
    assert_eq!(sim.open(7), Errno::Esucc);
    let failed = write_outcome(1, 2, 0, 5, Errno::Ebadf);
    let step = sim.leader.write_reply(7, 0, 1, 2, Some(failed));
    assert!(matches!(step, WriteStep::Done(Err(Errno::Ebadf))));
    let step = sim.leader.write_reply(7, 0, 1, 2, None);
    assert!(matches!(step, WriteStep::Done(Err(Errno::Eintr))));
    assert!(sim.leader.handle(7).unwrap().segments[0].blocks.is_empty());
}

#[test]
fn write_reply_for_unknown_segment_is_enoent() {
    let mut sim = Sim::new("m1", 64);
    sim.meta.insert(7, vec![empty_segment(1, 2, "m1", 64)]);
    assert_eq!(sim.open(7), Errno::Esucc);
    let ok = write_outcome(9, 9, 0, 5, Errno::Esucc);
    let step = sim.leader.write_reply(7, 0, 9, 9, Some(ok));
    assert!(matches!(step, WriteStep::Done(Err(Errno::Enoent))));
    let overflow = write_outcome(1, 2, u64::MAX, 5, Errno::Esucc);
    let step = sim.leader.write_reply(7, 0, 1, 2, Some(overflow));
    assert!(matches!(step, WriteStep::Done(Err(Errno::Eintr))));
}

#[test]
fn write_reply_with_uses_the_given_name() {
    let mut sim = Sim::new("m1", 32);
    sim.meta.insert(7, vec![empty_segment(1, 2, "m1", 8)]);
    assert_eq!(sim.open(7), Errno::Esucc);
    let full = plan_write(1, 2, 8, 1, 8).unwrap_err();
    let step = sim.leader.write_reply_with(7, 0, 1, 2, Some(full), (0xab, 0xcd));
    match step {
        WriteStep::Dispatch(req) => {
            assert_eq!((req.id0, req.id1), (0xab, 0xcd));
            assert_eq!(req.max_size, 32);
            assert_eq!(req.worker, ((0xab ^ 0xcd) % 3) as u32);
            assert_eq!(req.dir, "/data/3/abcd/");
        }
        _ => panic!("a full tail makes the write go on"),
    }
    let h = sim.leader.handle(7).unwrap();
    assert_eq!(h.segments.len(), 2);
    assert_eq!((h.segments[1].seg_id0, h.segments[1].seg_id1), (0xab, 0xcd));
}

#[test]
fn released_leader_fails_fast() {
    let mut sim = Sim::new("m1", 64);
    sim.meta.insert(7, vec![empty_segment(1, 2, "m1", 64)]);
    assert_eq!(sim.open(7), Errno::Esucc);
    sim.leader.release();
    assert_eq!(sim.open(7), Errno::Eintr);
    assert_eq!(sim.write(7, 0, b"x"), Err(Errno::Eintr));
    assert_eq!(sim.read(7, 0, 1), Err(Errno::Eintr));
    assert_eq!(sim.close(7), Errno::Eintr);
}

#[test]
fn read_stops_at_end_of_file_with_what_it_has() {
    let mut sim = Sim::new("m1", 64);
    sim.meta.insert(7, vec![empty_segment(1, 2, "m1", 64)]);
    assert_eq!(sim.open(7), Errno::Esucc);
    sim.write(7, 0, b"hello").unwrap();
    assert_eq!(sim.read(7, 5, 4).unwrap(), Vec::<u8>::new());
    assert_eq!(sim.read(7, 0, 100).unwrap(), b"hello".to_vec());
    assert_eq!(sim.read(7, 50, 4).unwrap(), Vec::<u8>::new());
}

#[test]
fn read_passes_on_worker_error() {
    let mut sim = Sim::new("m1", 64);
    sim.meta.insert(7, vec![empty_segment(1, 2, "m1", 64)]);
    assert_eq!(sim.open(7), Errno::Esucc);
    sim.write(7, 0, b"hello").unwrap();
    let state = match sim.leader.read_begin(7, 0, 5) {
        ReadStep::Fetch(state, req) => {
            assert_eq!((req.id0, req.id1, req.offset, req.size), (1, 2, 0, 5));
            state
        }
        _ => panic!("the block is read"),
    };
    let step = sim.leader.read_reply(state, Some(MsgFileReadData { data: None, err: Errno::Eaccess }));
    assert!(matches!(step, ReadStep::Done(Err(Errno::Eaccess))));
    let state = match sim.leader.read_begin(7, 0, 5) {
        ReadStep::Fetch(state, _) => state,
        _ => panic!("the block is read"),
    };
    let step = sim.leader.read_reply(state, Some(read_done(b"toolong".to_vec())));
    assert!(matches!(step, ReadStep::Done(Err(Errno::Eintr))));
}
