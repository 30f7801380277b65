use yigfs_client::file_handle::{FileHandle, MsgUpdateHandle, MsgUpdateHandleType};
use yigfs_client::ids::{split_halves, uuid_u64_le};
use yigfs_client::types::{Block, MetaBlock, MetaSegment, Segment};

fn sample_segment() -> Segment {
    let mut seg = Segment::create(0x10, 0x20, &String::from("m1"), 100);
    seg.add_block(7, 0, 10, 5);
    seg.add_block(7, 5, 15, 3);
    seg
}

#[test]
fn block_copy_is_equal() {
    let b = Block { ino: 1, generation: 2, offset: 3, seg_start_addr: 4, seg_end_addr: 9, size: 5 };
    assert_eq!(b.copy(), b);
}

#[test]
fn block_to_meta_drops_owner_and_from_meta_restores_it() {
    let b = Block { ino: 7, generation: 0, offset: 3, seg_start_addr: 4, seg_end_addr: 9, size: 5 };
    let m = b.to_meta_block();
    assert_eq!(m, MetaBlock { offset: 3, seg_start_addr: 4, seg_end_addr: 9, size: 5 });
    assert_eq!(Block::from_meta_block(7, 0, &m), b);
    assert_eq!(Block::from_meta_block(8, 1, &m).ino, 8);
    assert_eq!(Block::from_meta_block(8, 1, &m).generation, 1);
}

#[test]
fn segment_new_is_empty_with_given_leader() {
    let a = Segment::new(&String::from("m1"));
    let b = Segment::new(&String::from("m1"));
    assert_eq!(a.leader, "m1");
    assert!(a.is_empty());
    assert_eq!(a.max_size, 0);
    assert_eq!(a.usage(), 0);
    assert_ne!((a.seg_id0, a.seg_id1), (b.seg_id0, b.seg_id1));
}

#[test]
fn segment_create_sets_every_field() {
    let s = Segment::create(1, 2, &String::from("m9"), 77);
    assert_eq!((s.seg_id0, s.seg_id1, s.max_size), (1, 2, 77));
    assert_eq!(s.leader, "m9");
    assert!(s.blocks.is_empty());
}

#[test]
fn segment_add_block_computes_end_and_size() {
    let seg = sample_segment();
    assert_eq!(
        seg.blocks,
        vec![
            Block { ino: 7, generation: 0, offset: 0, seg_start_addr: 10, seg_end_addr: 15, size: 5 },
            Block { ino: 7, generation: 0, offset: 5, seg_start_addr: 15, seg_end_addr: 18, size: 3 },
        ]
    );
    assert!(!seg.is_empty());
}

#[test]
fn segment_usage_is_sum_of_sizes() {
    assert_eq!(sample_segment().usage(), 8);
    assert_eq!(Segment::create(1, 2, &String::from("m"), 5).usage(), 0);
}

#[test]
fn segment_contains_includes_both_ends() {
    let mut seg = Segment::create(1, 2, &String::from("m"), 100);
    assert!(!seg.contains(0));
    seg.add_block(7, 10, 0, 5);
    seg.add_block(7, 15, 5, 5);
    assert!(!seg.contains(9));
    assert!(seg.contains(10));
    assert!(seg.contains(17));
    assert!(seg.contains(20));
    assert!(!seg.contains(21));
}

#[test]
fn segment_contains_does_not_overflow() {
    let mut seg = Segment::create(1, 2, &String::from("m"), 100);
    seg.blocks.push(Block {
        ino: 1,
        generation: 0,
        offset: u64::MAX,
        seg_start_addr: 0,
        seg_end_addr: 0,
        size: i64::MAX,
    });
    assert!(seg.contains(u64::MAX));
    assert!(!seg.contains(u64::MAX - 1));
}

#[test]
fn segment_copy_is_independent() {
    let seg = sample_segment();
    let mut copy = seg.copy();
    assert_eq!(copy.blocks, seg.blocks);
    assert_eq!((copy.seg_id0, copy.seg_id1, copy.max_size), (0x10, 0x20, 100));
    assert_eq!(copy.leader, seg.leader);
    copy.add_block(7, 8, 18, 1);
    assert_eq!(seg.blocks.len(), 2);
    assert_eq!(copy.blocks.len(), 3);
}

#[test]
fn segment_meta_round_trip() {
    let seg = sample_segment();
    let meta = seg.to_meta_segment();
    assert_eq!((meta.seg_id0, meta.seg_id1, meta.max_size), (0x10, 0x20, 100));
    assert_eq!(meta.leader, "m1");
    assert_eq!(
        meta.blocks,
        vec![
            MetaBlock { offset: 0, seg_start_addr: 10, seg_end_addr: 15, size: 5 },
            MetaBlock { offset: 5, seg_start_addr: 15, seg_end_addr: 18, size: 3 },
        ]
    );
    let back = Segment::from_meta_segment(7, &meta);
    assert_eq!(back.blocks, seg.blocks);
    assert_eq!((back.seg_id0, back.seg_id1, back.max_size), (0x10, 0x20, 100));
    assert_eq!(back.leader, "m1");
    let again = back.to_meta_segment();
    assert_eq!(again.blocks, meta.blocks);
    assert_eq!(again.leader, meta.leader);
}

#[test]
fn meta_segment_default_is_empty() {
    let m = MetaSegment::default();
    assert!(m.blocks.is_empty());
    assert_eq!(m.max_size, 0);
}

#[test]
fn file_handle_new_and_copy() {
    let mut h = FileHandle::new(42);
    assert_eq!(h.ino, 42);
    assert_eq!(h.leader, "");
    assert!(h.segments.is_empty());
    h.leader = String::from("m1");
    h.segments.push(sample_segment());
    let c = h.copy();
    assert_eq!(c.ino, 42);
    assert_eq!(c.leader, "m1");
    assert_eq!(c.segments.len(), 1);
    assert_eq!(c.segments[0].blocks, h.segments[0].blocks);
}

#[test]
fn update_message_holds_type_and_handle() {
    let msg = MsgUpdateHandle { update_type: MsgUpdateHandleType::MsgHandleDel, handle: FileHandle::new(3) };
    assert_eq!(msg.update_type, MsgUpdateHandleType::MsgHandleDel);
    assert_ne!(msg.update_type, MsgUpdateHandleType::MsgHandleAdd);
    assert_eq!(msg.handle.ino, 3);
}

#[test]
fn split_halves_low_first() {
    assert_eq!(split_halves(0), (0, 0));
    assert_eq!(split_halves(1), (1, 0));
    assert_eq!(split_halves(1u128 << 64), (0, 1));
    assert_eq!(
        split_halves(0x0123_4567_89ab_cdef_fedc_ba98_7654_3210),
        (0xfedc_ba98_7654_3210, 0x0123_4567_89ab_cdef)
    );
    assert_eq!(split_halves(u128::MAX), (u64::MAX, u64::MAX));
}

#[test]
fn fresh_ids_differ() {
    let a = uuid_u64_le();
    let b = uuid_u64_le();
    assert_ne!(a, b);
}

#[test]
fn fresh_ids_are_halves_of_a_version_4_uuid() {
    for _ in 0..64 {
        let (lo, hi) = uuid_u64_le();
        assert_eq!(lo >> 62, 0b10);
        assert_eq!((hi >> 12) & 0xf, 4);
        let whole = ((hi as u128) << 64) | lo as u128;
        assert_eq!(uuid::Uuid::from_u128(whole).get_version_num(), 4);
        assert_eq!(split_halves(whole), (lo, hi));
    }
}
