use yigfs_client::disk_io::{
    after_write, plan_read, plan_write, read_done, read_eof, segment_file_path, write_outcome,
    MsgFileWriteResp, WriteProgress,
};
use yigfs_client::errno::Errno;
use yigfs_client::io_pool::IoThreadPool;
use yigfs_client::segment_mgr::SegmentMgr;
use yigfs_client::text::{push_decimal, push_decimal_wide, push_hex};
use yigfs_client::types::{MetaBlock, MetaSegment, Segment};

fn hex(n: u64) -> String {
    let mut s = String::new();
    push_hex(&mut s, n);
    s
}

fn dec(n: u64) -> String {
    let mut s = String::new();
    push_decimal(&mut s, n);
    s
}

#[test]
fn hex_matches_std_formatting() {
    assert_eq!(hex(0), "0");
    assert_eq!(hex(9), "9");
    assert_eq!(hex(10), "a");
    assert_eq!(hex(15), "f");
    assert_eq!(hex(16), "10");
    assert_eq!(hex(0xdead_beef), "deadbeef");
    assert_eq!(hex(u64::MAX), "ffffffffffffffff");
    for n in [1u64, 255, 256, 4095, 0x1234_5678_9abc_def0] {
        assert_eq!(hex(n), format!("{:x}", n));
    }
}

#[test]
fn decimal_matches_std_formatting() {
    assert_eq!(dec(0), "0");
    assert_eq!(dec(7), "7");
    assert_eq!(dec(10), "10");
    assert_eq!(dec(40003), "40003");
    assert_eq!(dec(u64::MAX), "18446744073709551615");
    let mut s = String::from("n=");
    push_decimal_wide(&mut s, u128::MAX);
    assert_eq!(s, format!("n={}", u128::MAX));
}

#[test]
fn push_appends_after_what_is_there() {
    let mut s = String::from("seg-");
    push_hex(&mut s, 0xab);
    push_decimal(&mut s, 12);
    assert_eq!(s, "seg-ab12");
}

#[test]
fn pool_picks_worker_by_xor_mod_size() {
    let pool = IoThreadPool::new(4);
    assert_eq!(pool.len(), 4);
    assert_eq!(pool.get_thread(0, 0), 0);
    assert_eq!(pool.get_thread(5, 0), 1);
    assert_eq!(pool.get_thread(5, 3), 2);
    assert_eq!(pool.get_thread(7, 7), 0);
    assert_eq!(pool.get_thread(u64::MAX, 0), 3);
    assert_eq!(pool.get_thread(5, 3), pool.get_thread(5, 3));
    let one = IoThreadPool::new(1);
    assert_eq!(one.get_thread(123, 456), 0);
}

#[test]
fn write_is_refused_when_it_does_not_fit() {
    assert_eq!(plan_write(1, 2, 0, 8, 8), Ok(0));
    assert_eq!(plan_write(1, 2, 3, 5, 8), Ok(3));
    assert_eq!(
        plan_write(1, 2, 4, 5, 8),
        Err(MsgFileWriteResp { id0: 1, id1: 2, offset: 0, nwrite: 0, err: Errno::Enospc })
    );
    assert_eq!(plan_write(1, 2, 9, 0, 8).unwrap_err().err, Errno::Enospc);
    assert_eq!(plan_write(1, 2, 8, 0, 8), Ok(8));
    assert_eq!(plan_write(1, 2, u64::MAX, 1, u64::MAX).unwrap_err().err, Errno::Enospc);
    assert_eq!(plan_write(1, 2, u64::MAX - 1, 1, u64::MAX), Ok(u64::MAX - 1));
}

#[test]
fn write_outcome_is_receipt_or_error() {
    assert_eq!(
        write_outcome(1, 2, 7, 3, Errno::Esucc),
        MsgFileWriteResp { id0: 1, id1: 2, offset: 7, nwrite: 3, err: Errno::Esucc }
    );
    assert_eq!(
        write_outcome(1, 2, 7, 3, Errno::Ebadf),
        MsgFileWriteResp { id0: 1, id1: 2, offset: 0, nwrite: 0, err: Errno::Ebadf }
    );
}

#[test]
fn short_writes_are_retried_until_done() {
    assert_eq!(after_write(10, 0, 10), WriteProgress::Complete);
    assert_eq!(after_write(10, 0, 4), WriteProgress::More(4));
    assert_eq!(after_write(10, 4, 5), WriteProgress::More(9));
    assert_eq!(after_write(10, 9, 1), WriteProgress::Complete);
    assert_eq!(after_write(10, 4, 0), WriteProgress::Stalled);
    assert_eq!(after_write(10, 4, 7), WriteProgress::Stalled);
}

#[test]
fn read_gives_up_to_size_bytes_or_eof() {
    assert_eq!(plan_read(10, 0, 4), Some(4));
    assert_eq!(plan_read(10, 6, 4), Some(4));
    assert_eq!(plan_read(10, 8, 4), Some(2));
    assert_eq!(plan_read(10, 9, 0), Some(0));
    assert_eq!(plan_read(10, 10, 4), None);
    assert_eq!(plan_read(10, 11, 4), None);
    assert_eq!(plan_read(0, 0, 1), None);
    assert_eq!(plan_read(u64::MAX, u64::MAX - 1, 7), Some(1));
}

#[test]
fn read_answers() {
    let eof = read_eof();
    assert_eq!(eof.err, Errno::Eeof);
    assert!(eof.data.is_none());
    let done = read_done(vec![1, 2, 3]);
    assert_eq!(done.err, Errno::Esucc);
    assert_eq!(done.data, Some(vec![1, 2, 3]));
}

#[test]
fn segment_file_path_is_dir_slash_hex_names() {
    assert_eq!(segment_file_path(&String::from("/data/1/1a2b"), 0x1a, 0x2b), "/data/1/1a2b/1a2b");
    assert_eq!(segment_file_path(&String::from(""), 0, 255), "/0ff");
}

#[test]
fn segment_dir_is_root_partition_and_hex_names() {
    let mgr = SegmentMgr::new(&String::from("/var/yig"), 16, 1 << 20);
    assert_eq!(mgr.get_segment_dir(0x1f, 0xa0), "/var/yig/15/1fa0/");
    assert_eq!(mgr.get_segment_dir(32, 1), "/var/yig/0/201/");
    assert_eq!(mgr.get_segment_dir(0x1f, 0xa0), mgr.get_segment_dir(0x1f, 0xa0));
    let flat = SegmentMgr::new(&String::from("r"), 0, 1);
    assert_eq!(flat.get_segment_dir(77, 3), "r/0/4d3/");
}

#[test]
fn new_segment_has_configured_capacity() {
    let mgr = SegmentMgr::new(&String::from("/d"), 4, 4096);
    let a = mgr.new_segment(&String::from("m1"));
    let b = mgr.new_segment(&String::from("m1"));
    assert_eq!(a.max_size, 4096);
    assert_eq!(a.leader, "m1");
    assert!(a.blocks.is_empty());
    assert_ne!((a.seg_id0, a.seg_id1), (b.seg_id0, b.seg_id1));
    let c = mgr.new_segment_with(5, 6, &String::from("m2"));
    assert_eq!((c.seg_id0, c.seg_id1, c.max_size), (5, 6, 4096));
    assert_eq!(c.leader, "m2");
}

fn meta(id0: u64, leader: &str, blocks: Vec<MetaBlock>) -> MetaSegment {
    MetaSegment { seg_id0: id0, seg_id1: id0 + 1, leader: String::from(leader), max_size: 64, blocks }
}

#[test]
fn file_segments_must_all_be_led_by_this_machine() {
    let mgr = SegmentMgr::new(&String::from("/d"), 4, 4096);
    let machine = String::from("m1");
    let b = MetaBlock { offset: 0, seg_start_addr: 0, seg_end_addr: 4, size: 4 };
    let good = vec![meta(1, "m1", vec![b]), meta(3, "m1", vec![])];
    let segs = mgr.get_file_segments(7, &machine, &good).unwrap();
    assert_eq!(segs.len(), 2);
    assert_eq!((segs[0].seg_id0, segs[0].seg_id1, segs[0].max_size), (1, 2, 64));
    assert_eq!(segs[0].blocks.len(), 1);
    assert_eq!(segs[0].blocks[0].ino, 7);
    assert_eq!(segs[0].blocks[0].generation, 0);
    assert_eq!(segs[0].blocks[0].seg_end_addr, 4);
    assert_eq!(segs[1].seg_id0, 3);
    let bad = vec![meta(1, "m1", vec![]), meta(3, "m2", vec![])];
    assert_eq!(mgr.get_file_segments(7, &machine, &bad).err(), Some(Errno::Eintr));
    assert_eq!(mgr.get_file_segments(7, &machine, &Vec::new()).unwrap().len(), 0);
}

#[test]
fn update_request_lists_every_segment_in_order() {
    let mgr = SegmentMgr::new(&String::from("/d"), 4, 4096);
    let mut a = Segment::create(1, 2, &String::from("m1"), 10);
    a.add_block(7, 0, 0, 4);
    let b = Segment::create(3, 4, &String::from("m1"), 20);
    let metas = mgr.update_segments_request(&vec![a, b]);
    assert_eq!(metas.len(), 2);
    assert_eq!((metas[0].seg_id0, metas[0].seg_id1, metas[0].max_size), (1, 2, 10));
    assert_eq!(metas[0].blocks, vec![MetaBlock { offset: 0, seg_start_addr: 0, seg_end_addr: 4, size: 4 }]);
    assert_eq!((metas[1].seg_id0, metas[1].max_size), (3, 20));
    assert!(metas[1].blocks.is_empty());
}
