use std::rc::Rc;

use yigfs_client::errno::Errno;
use yigfs_client::filesystem_mgr::{FilesystemMgr, MountOptions};
use yigfs_client::http_client::{collect_body, Attempt, HttpClient, HttpMethod, RespText, Verdict};
use yigfs_client::leader_local::LeaderLocal;
use yigfs_client::meta_types::{
    Config, FileType, MetaServerConfig, MsgDirEntry, MsgFileAttr, MsgLeaderInfo, RespDirFileAttr,
    RespFileAttr, RespFileLeader, RespFileSegments, RespReadDir, RespResult, S3Config, ZoneConfig,
};
use yigfs_client::mgr_impl::{check_answer, new_metaserver_mgr, MetaServiceMgrImpl, Rpc};
use yigfs_client::s3_client::S3Client;
use yigfs_client::segment_mgr::SegmentMgr;
use yigfs_client::types::MetaSegment;

fn config() -> Config {
    Config {
        metaserver_config: MetaServerConfig { meta_server: String::from("http://meta:9000") },
        s3_config: S3Config { region: String::from("cn-bj-1"), bucket: String::from("test-bucket") },
        zone_config: ZoneConfig { zone: String::from("z1"), machine: String::from("m1") },
    }
}

fn client() -> MetaServiceMgrImpl {
    MetaServiceMgrImpl::new(&config()).unwrap()
}

fn result(code: i64) -> RespResult {
    RespResult { err_code: code, err_msg: String::new() }
}

fn attr(kind: u8) -> MsgFileAttr {
    MsgFileAttr {
        ino: 5,
        generation: 1,
        size: 100,
        blocks: 2,
        atime: 10,
        mtime: 11,
        ctime: 12,
        kind,
        perm: 0o644,
        nlink: 1,
        uid: 1000,
        gid: 1001,
        rdev: 0,
        flags: 3,
    }
}

#[test]
fn answer_codes_map_to_errno() {
    assert_eq!(check_answer(Some(200), Some(0)), Errno::Esucc);
    assert_eq!(check_answer(Some(299), Some(0)), Errno::Esucc);
    assert_eq!(check_answer(Some(200), Some(40003)), Errno::Enoent);
    assert_eq!(check_answer(Some(200), Some(1)), Errno::Eintr);
    assert_eq!(check_answer(Some(200), Some(-1)), Errno::Eintr);
    assert_eq!(check_answer(Some(200), None), Errno::Eintr);
    assert_eq!(check_answer(Some(300), Some(0)), Errno::Eintr);
    assert_eq!(check_answer(Some(500), Some(40003)), Errno::Eintr);
    assert_eq!(check_answer(None, Some(0)), Errno::Eintr);
}

#[test]
fn endpoints_are_url_plus_path() {
    let c = client();
    assert_eq!(c.endpoint(Rpc::Mount), (HttpMethod::Put, String::from("http://meta:9000/v1/dir")));
    assert_eq!(c.endpoint(Rpc::ReadDir), (HttpMethod::Get, String::from("http://meta:9000/v1/dir/files")));
    assert_eq!(c.endpoint(Rpc::FileAttr), (HttpMethod::Get, String::from("http://meta:9000/v1/file/attr")));
    assert_eq!(
        c.endpoint(Rpc::DirFileAttr),
        (HttpMethod::Get, String::from("http://meta:9000/v1/dir/file/attr"))
    );
    assert_eq!(
        c.endpoint(Rpc::FileLeader),
        (HttpMethod::Get, String::from("http://meta:9000/v1/file/leader"))
    );
    assert_eq!(
        c.endpoint(Rpc::FileSegments),
        (HttpMethod::Get, String::from("http://meta:9000/v1/file/segments"))
    );
    assert_eq!(
        c.endpoint(Rpc::UpdateSegments),
        (HttpMethod::Put, String::from("http://meta:9000/v1/file/segments"))
    );
}

#[test]
fn requests_carry_the_configuration() {
    let c = client();
    let m = c.mount_request();
    assert_eq!((m.region.as_str(), m.bucket.as_str(), m.zone.as_str(), m.machine.as_str()),
        ("cn-bj-1", "test-bucket", "z1", "m1"));
    let r = c.read_dir_request(4, -2);
    assert_eq!((r.region.as_str(), r.bucket.as_str(), r.ino, r.offset), ("cn-bj-1", "test-bucket", 4, -2));
    let a = c.file_attr_request(9);
    assert_eq!((a.region.as_str(), a.bucket.as_str(), a.ino), ("cn-bj-1", "test-bucket", 9));
    let d = c.dir_file_attr_request(9, &String::from("f.txt"));
    assert_eq!((d.bucket.as_str(), d.ino, d.name.as_str()), ("test-bucket", 9, "f.txt"));
    let l = c.file_leader_request(9, 1);
    assert_eq!((l.region.as_str(), l.bucket.as_str(), l.zone.as_str(), l.machine.as_str(), l.ino, l.flag),
        ("cn-bj-1", "test-bucket", "z1", "m1", 9, 1));
    let s = c.file_segments_request(9);
    assert_eq!((s.region.as_str(), s.bucket.as_str(), s.ino), ("cn-bj-1", "test-bucket", 9));
    let u = c.update_segments_request(9, vec![MetaSegment::default()]);
    assert_eq!((u.region.as_str(), u.bucket.as_str(), u.ino, u.segments.len()), ("cn-bj-1", "test-bucket", 9, 1));
}

#[test]
fn mount_needs_status_below_300() {
    let c = client();
    assert_eq!(c.mount(Some(200)), Ok(()));
    assert_eq!(c.mount(Some(299)), Ok(()));
    assert_eq!(c.mount(Some(300)), Err(Errno::Eintr));
    assert_eq!(c.mount(None), Err(Errno::Eintr));
}

#[test]
fn read_dir_converts_entries() {
    let c = client();
    let resp = RespReadDir {
        result: result(0),
        files: vec![
            MsgDirEntry { ino: 2, dir_entry_type: 2, name: String::from("d") },
            MsgDirEntry { ino: 3, dir_entry_type: 1, name: String::from("f") },
            MsgDirEntry { ino: 4, dir_entry_type: 3, name: String::from("l") },
            MsgDirEntry { ino: 5, dir_entry_type: 9, name: String::from("x") },
        ],
    };
    let entries = c.read_dir(Some(200), Some(&resp)).unwrap();
    assert_eq!(entries.len(), 4);
    assert_eq!((entries[0].ino, entries[0].file_type, entries[0].name.as_str()), (2, FileType::Dir, "d"));
    assert_eq!((entries[1].ino, entries[1].file_type, entries[1].name.as_str()), (3, FileType::File, "f"));
    assert_eq!(entries[2].file_type, FileType::Link);
    assert_eq!(entries[3].file_type, FileType::Unknown);
}

#[test]
fn read_dir_errors() {
    let c = client();
    let empty = RespReadDir { result: result(40003), files: Vec::new() };
    assert_eq!(c.read_dir(Some(200), Some(&empty)).err(), Some(Errno::Enoent));
    let broken = RespReadDir { result: result(7), files: Vec::new() };
    assert_eq!(c.read_dir(Some(200), Some(&broken)).err(), Some(Errno::Eintr));
    let fine = RespReadDir { result: result(0), files: Vec::new() };
    assert_eq!(c.read_dir(Some(404), Some(&fine)).err(), Some(Errno::Eintr));
    assert_eq!(c.read_dir(Some(200), None).err(), Some(Errno::Eintr));
    assert_eq!(c.read_dir(None, None).err(), Some(Errno::Eintr));
    assert_eq!(c.read_dir(Some(200), Some(&fine)).unwrap().len(), 0);
}

#[test]
fn file_attr_is_converted_field_by_field() {
    let c = client();
    let a = c.to_file_attr(&attr(2));
    assert_eq!((a.ino, a.generation, a.size, a.blocks), (5, 1, 100, 2));
    assert_eq!((a.atime, a.mtime, a.ctime), (10, 11, 12));
    assert_eq!(a.kind, FileType::Dir);
    assert_eq!((a.perm, a.nlink, a.uid, a.gid, a.rdev, a.flags), (0o644, 1, 1000, 1001, 0, 3));
    assert_eq!(c.to_file_attr(&attr(0)).kind, FileType::Unknown);
    assert_eq!(FileType::from_code(1), FileType::File);
}

#[test]
fn read_file_attr_outcomes() {
    let c = client();
    let ok = RespFileAttr { result: result(0), attr: attr(1) };
    assert_eq!(c.read_file_attr(Some(200), Some(&ok)).unwrap(), c.to_file_attr(&attr(1)));
    assert_eq!(c.read_file_attr(Some(301), Some(&ok)).err(), Some(Errno::Eintr));
    let none = RespFileAttr { result: result(40003), attr: attr(1) };
    assert_eq!(c.read_file_attr(Some(200), Some(&none)).err(), Some(Errno::Enoent));
    assert_eq!(c.read_file_attr(Some(200), None).err(), Some(Errno::Eintr));
    let dir_ok = RespDirFileAttr { result: result(0), attr: attr(2) };
    assert_eq!(c.read_dir_file_attr(Some(200), Some(&dir_ok)).unwrap().kind, FileType::Dir);
    let dir_bad = RespDirFileAttr { result: result(5), attr: attr(2) };
    assert_eq!(c.read_dir_file_attr(Some(200), Some(&dir_bad)).err(), Some(Errno::Eintr));
    assert_eq!(c.read_dir_file_attr(None, None).err(), Some(Errno::Eintr));
}

#[test]
fn file_leader_outcomes() {
    let c = client();
    let ok = RespFileLeader {
        result: result(0),
        leader_info: MsgLeaderInfo { zone: String::from("z2"), leader: String::from("m7") },
    };
    let l = c.get_file_leader(11, Some(200), Some(&ok)).unwrap();
    assert_eq!((l.ino, l.zone.as_str(), l.leader.as_str()), (11, "z2", "m7"));
    assert_eq!(c.get_file_leader(11, Some(500), Some(&ok)).err(), Some(Errno::Eintr));
    assert_eq!(c.get_file_leader(11, Some(200), None).err(), Some(Errno::Eintr));
}

#[test]
fn segments_outcomes() {
    let c = client();
    let mut seg = MetaSegment::default();
    seg.seg_id0 = 4;
    let ok = RespFileSegments { result: result(0), segments: vec![seg] };
    let got = c.get_file_segments(Some(200), Some(ok)).unwrap();
    assert_eq!(got.len(), 1);
    assert_eq!(got[0].seg_id0, 4);
    let none = RespFileSegments { result: result(40003), segments: Vec::new() };
    assert_eq!(c.get_file_segments(Some(200), Some(none)).err(), Some(Errno::Enoent));
    assert_eq!(c.get_file_segments(Some(200), None).err(), Some(Errno::Eintr));
    assert_eq!(c.update_segments(Some(200), Some(&result(0))), Errno::Esucc);
    assert_eq!(c.update_segments(Some(200), Some(&result(3))), Errno::Eintr);
    assert_eq!(c.update_segments(Some(299), None), Errno::Esucc);
    assert_eq!(c.update_segments(Some(200), Some(&result(40003))), Errno::Enoent);
    assert_eq!(c.update_segments(Some(300), Some(&result(0))), Errno::Eintr);
    assert_eq!(c.update_segments(None, None), Errno::Eintr);
}

#[test]
fn transport_tries_retry_times_in_all() {
    let http = HttpClient::new(3);
    assert_eq!(http.retry_times, 3);
    let mut left = http.first_attempt().unwrap();
    assert_eq!(left, 2);
    let mut attempts = 1;
    loop {
        match http.after_attempt(left, Attempt::SendFailed) {
            Verdict::TryAgain(rest) => {
                left = rest;
                attempts += 1;
            }
            v => {
                assert_eq!(v, Verdict::Fail);
                break;
            }
        }
    }
    assert_eq!(attempts, 3);
    assert_eq!(HttpClient::new(0).first_attempt(), None);
    assert_eq!(HttpClient::new(1).first_attempt(), Some(0));
}

#[test]
fn transport_verdicts() {
    let http = HttpClient::new(3);
    assert_eq!(http.after_attempt(2, Attempt::Answered), Verdict::Succeed);
    assert_eq!(http.after_attempt(0, Attempt::Answered), Verdict::Succeed);
    assert_eq!(http.after_attempt(2, Attempt::RequestInvalid), Verdict::Fail);
    assert_eq!(http.after_attempt(2, Attempt::BodyInvalid), Verdict::Fail);
    assert_eq!(http.after_attempt(2, Attempt::SendFailed), Verdict::TryAgain(1));
    assert_eq!(http.after_attempt(0, Attempt::SendFailed), Verdict::Fail);
}

#[test]
fn body_is_collected_and_buffer_drained() {
    let mut body = bytes::Bytes::from_static(b"{\"result\":{}}");
    let data = collect_body(&mut body);
    assert_eq!(data, b"{\"result\":{}}".to_vec());
    assert!(body.is_empty());
    let mut none = bytes::Bytes::new();
    assert_eq!(collect_body(&mut none), Vec::<u8>::new());
    let mut part = bytes::Bytes::from_static(b"0123456789").slice(3..7);
    assert_eq!(collect_body(&mut part), b"3456".to_vec());
}

#[test]
fn resp_text_default_is_empty() {
    let r = RespText::default();
    assert_eq!(r.status, 0);
    assert!(r.headers.is_empty());
    assert_eq!(r.body, "");
}

#[test]
fn s3_client_keeps_its_settings() {
    let c = S3Client::new("cn-bj-1", "s3.test.com:8080", "hehehehe", "hehehehe");
    assert_eq!(c.region, "cn-bj-1");
    assert_eq!(c.endpoint, "s3.test.com:8080");
    assert_eq!(c.ak, "hehehehe");
    assert_eq!(c.sk, "hehehehe");
}

#[test]
fn s3_urls() {
    let c = S3Client::new("cn-bj-1", "s3.test.com:8080", "ak", "sk");
    assert_eq!(S3Client::path_of("test-bucket", "test-object-1"), "/test-bucket/test-object-1");
    assert_eq!(c.object_url("test-bucket", "test-object-1"), "http://s3.test.com:8080/test-bucket/test-object-1");
    assert_eq!(
        c.append_url("test-bucket", "test-object-2", 0),
        "http://s3.test.com:8080/test-bucket/test-object-2?append&position=0"
    );
    assert_eq!(
        c.append_url("b", "o", 340282366920938463463374607431768211455),
        "http://s3.test.com:8080/b/o?append&position=340282366920938463463374607431768211455"
    );
}

#[test]
fn s3_head_object_outcomes() {
    let c = S3Client::new("r", "e", "ak", "sk");
    let bucket = String::from("b");
    let object = String::from("o");
    let info = c.head_object(&bucket, &object, Some(200), Some("1234")).unwrap();
    assert_eq!((info.bucket.as_str(), info.name.as_str(), info.size), ("b", "o", 1234));
    assert_eq!(c.head_object(&bucket, &object, Some(403), Some("1")).err(), Some(Errno::Eaccess));
    assert_eq!(c.head_object(&bucket, &object, Some(404), Some("1")).err(), Some(Errno::Enotf));
    assert_eq!(c.head_object(&bucket, &object, Some(500), Some("1")).err(), Some(Errno::Eintr));
    assert_eq!(c.head_object(&bucket, &object, Some(200), None).err(), Some(Errno::Eintr));
    assert_eq!(c.head_object(&bucket, &object, Some(200), Some("12x")).err(), Some(Errno::Eintr));
    assert_eq!(c.head_object(&bucket, &object, None, Some("1")).err(), Some(Errno::Eintr));
    assert_eq!(S3Client::head_status(299), Errno::Esucc);
    assert_eq!(c.head_object_with(&bucket, &object, Some(200), Some(Some(9))).unwrap().size, 9);
    assert_eq!(c.head_object_with(&bucket, &object, Some(200), Some(None)).err(), Some(Errno::Eintr));
}

#[test]
fn filesystem_mgr_hands_out_its_leader_once() {
    let meta = new_metaserver_mgr(&config()).unwrap();
    let leader = LeaderLocal::new(&String::from("m1"), 2, SegmentMgr::new(&String::from("/d"), 4, 64));
    let mut fs = FilesystemMgr::create(Rc::clone(&meta), leader);
    let options = MountOptions { mnt: String::from("/mnt/yig") };
    assert_eq!(options.mnt, "/mnt/yig");
    let (m, l) = fs.mount().unwrap();
    assert!(Rc::ptr_eq(&m, &meta));
    assert_eq!(l.open_files(), 0);
    assert!(fs.mount().is_none());
}

#[test]
fn errno_predicates() {
    assert!(Errno::Esucc.is_success());
    assert!(!Errno::Enoent.is_success());
    assert!(Errno::Enoent.is_enoent());
    assert!(Errno::Eeof.is_eof());
    assert!(Errno::Enospc.is_enospc());
    assert!(!Errno::Eintr.is_enospc());
    assert_ne!(Errno::Ebadf, Errno::Ealready);
}

#[test]
fn test_append_object_by_path() {
    let region = String::from("cn-bj-1");
    let endpoint = String::from("s3.test.com:8080");
    let ak = String::from("hehehehe");
    let sk = String::from("hehehehe");
    let target_bucket = String::from("test-bucket");
    let target_object = String::from("test-object-1");
    let append_position: u64 = 0;

    let s3_client = S3Client::new(&region, &endpoint, &ak, &sk);
    assert_eq!(S3Client::path_of(&target_bucket, &target_object), "/test-bucket/test-object-1");
    assert_eq!(
        s3_client.append_url(&target_bucket, &target_object, append_position as u128),
        "http://s3.test.com:8080/test-bucket/test-object-1?append&position=0"
    );
}

#[test]
fn test_append_object() {
    let region = String::from("cn-bj-1");
    let endpoint = String::from("s3.test.com:8080");
    let ak = String::from("hehehehe");
    let sk = String::from("hehehehe");
    let target_bucket = String::from("test-bucket");
    let target_object = String::from("test-object-2");
    let append_position: u64 = 0;
    let data: Vec<u8> = "Hello, World!".into();

    let s3_client = S3Client::new(&region, &endpoint, &ak, &sk);
    assert_eq!(
        s3_client.append_url(&target_bucket, &target_object, append_position as u128),
        "http://s3.test.com:8080/test-bucket/test-object-2?append&position=0"
    );
    assert_eq!(
        s3_client.append_url(&target_bucket, &target_object, data.len() as u128),
        "http://s3.test.com:8080/test-bucket/test-object-2?append&position=13"
    );
}
