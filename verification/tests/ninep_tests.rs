use std::collections::HashSet;

use acre::codec::Qid;
use acre::conn::{Conn, IOHDRSZ, MSIZE, NOFID, NOTAG};
use acre::dial::{dial_service, mount_service, namespace, namespace_path};
use acre::fid::{path_elements, Fid, SeekFrom, RDWR, READ};
use acre::fsys::Fsys;
use acre::Error;

fn reply<T: nine::ser::Serialize>(mtype: u8, msg: &T) -> Vec<u8> {
    let mut data = vec![mtype];
    data.extend(nine::ser::into_bytes(msg).unwrap());
    data
}

fn q(path: u64) -> Qid {
    Qid { file_type: 0, version: 1, path }
}

fn nq(path: u64) -> nine::p2000::Qid {
    nine::p2000::Qid { file_type: nine::p2000::FileType::FILE, version: 1, path }
}

#[test]
fn namespace_from_display() {
    assert_eq!(
        namespace(None, Some("myhost:10.0".to_string()), "alice"),
        "/tmp/ns.alice.myhost:10"
    );
    assert_eq!(namespace(None, None, "bob"), "/tmp/ns.bob.:0");
    assert_eq!(namespace(None, Some("host:1.2".to_string()), "bob"), "/tmp/ns.bob.host:1.2");
    assert_eq!(namespace(Some("/my/ns".to_string()), Some(":5.0".to_string()), "bob"), "/my/ns");
    assert_eq!(namespace_path("u", ":0"), "/tmp/ns.u.:0");
}

#[test]
fn service_addresses() {
    assert_eq!(dial_service("/tmp/ns.a.:0", "acme"), "/tmp/ns.a.:0/acme");
    let m = mount_service("plumb", "/tmp/ns.a.:0", "a");
    assert_eq!(m.addr, "/tmp/ns.a.:0/plumb");
    assert_eq!(m.user, "a");
    assert_eq!(m.aname, "");
}

#[test]
fn version_handshake() {
    let mut c = Conn::new();
    let req = c.version().unwrap();
    assert_eq!(req.tag, 0xFFFF);
    let mut want = vec![19, 0, 0, 0, 100, 0xff, 0xff, 0, 0, 2, 0, 6, 0];
    want.extend(b"9P2000");
    assert_eq!(req.bytes, want);
    let sent: nine::p2000::Tversion = nine::de::from_bytes(&req.bytes[5..]).unwrap();
    assert_eq!(sent.tag, NOTAG);
    assert_eq!(sent.msize, 131072);
    assert_eq!(sent.version, "9P2000");
    assert_eq!(c.pending, HashSet::from([NOTAG]));

    let r = nine::p2000::Rversion { tag: NOTAG, msize: 8192, version: "9P2000".into() };
    let bytes = nine::ser::into_bytes(&r).unwrap();
    let (tag, data) = c.deliver(101, bytes).unwrap();
    assert_eq!(tag, NOTAG);
    assert!(c.pending.is_empty());
    c.version_reply(&data).unwrap();
    assert_eq!(c.msize, 8192);
}

#[test]
fn version_mismatch_fails() {
    let mut c = Conn::new();
    c.version().unwrap();
    let r = nine::p2000::Rversion { tag: NOTAG, msize: 8192, version: "unknown".into() };
    assert_eq!(
        c.version_reply(&reply(101, &r)).unwrap_err(),
        Error::InvalidVersion("unknown".to_string())
    );
    assert_eq!(c.msize, MSIZE);
    let r = nine::p2000::Rversion { tag: NOTAG, msize: 200000, version: "9P2000".into() };
    assert_eq!(c.version_reply(&reply(101, &r)).unwrap_err(), Error::InvalidMsize(200000));
    let r = nine::p2000::Rversion { tag: NOTAG, msize: 24, version: "9P2000".into() };
    assert_eq!(c.version_reply(&reply(101, &r)).unwrap_err(), Error::InvalidMsize(24));
    assert_eq!(c.version().unwrap_err(), Error::OutOfTags);
}

#[test]
fn tags_wait_until_reply() {
    let mut c = Conn::new();
    let a = c.clunk(3).unwrap();
    let b = c.read(4, 10, 20).unwrap();
    assert_eq!((a.tag, b.tag), (0, 1));
    assert_eq!(c.pending, HashSet::from([0, 1]));
    let body = nine::ser::into_bytes(&nine::p2000::Rclunk { tag: 0 }).unwrap();
    let (tag, data) = c.deliver(121, body.clone()).unwrap();
    assert_eq!(tag, 0);
    assert_eq!(data, vec![121, 0, 0]);
    assert_eq!(c.pending, HashSet::from([1]));
    Conn::clunk_reply(&data).unwrap();
    assert_eq!(c.deliver(121, body).unwrap_err(), Error::UnexpectedTag(0));
    assert_eq!(c.deliver(121, vec![1]).unwrap_err(), Error::Decode);
    assert_eq!(c.pending, HashSet::from([1]));
}

#[test]
fn tags_run_out() {
    let mut c = Conn::new();
    assert_eq!(c.new_tag().unwrap(), 0);
    assert_eq!(c.new_tag().unwrap(), 1);
    assert_eq!(c.pending, HashSet::from([0, 1]));
    let mut c = Conn::new();
    c.next_tag = 0xFFFD;
    assert_eq!(c.new_tag().unwrap(), 0xFFFD);
    assert_eq!(c.next_tag, 0xFFFE);
    assert_eq!(c.pending, HashSet::from([0xFFFD]));
    assert_eq!(c.clunk(1).unwrap().tag, 0xFFFE);
    assert_eq!(c.pending, HashSet::from([0xFFFD, 0xFFFE]));
    assert_eq!(c.new_tag().unwrap_err(), Error::OutOfTags);
    assert_eq!(c.clunk(1).unwrap_err(), Error::OutOfTags);
    assert_eq!(c.next_tag, 0xFFFF);
    assert_eq!(c.pending, HashSet::from([0xFFFD, 0xFFFE]));
}

#[test]
fn fids_are_fresh() {
    let mut c = Conn::new();
    assert_eq!(c.newfid().unwrap(), 2);
    assert_eq!(c.newfid().unwrap(), 3);
    c.nextfid = NOFID - 1;
    assert_eq!(c.newfid().unwrap_err(), Error::OutOfFids);
}

#[test]
fn requests_match_the_codec() {
    let mut c = Conn::new();
    let r = c.attach(2, "alice", "").unwrap();
    let m: nine::p2000::Tattach = nine::de::from_bytes(&r.bytes[5..]).unwrap();
    assert_eq!(r.bytes[4], 104);
    assert_eq!(u32::from_le_bytes(r.bytes[0..4].try_into().unwrap()) as usize, r.bytes.len());
    assert_eq!((m.tag, m.fid, m.afid), (0, 2, NOFID));
    assert_eq!(m.uname, "alice");
    assert_eq!(m.aname, "");

    let names = vec!["a".to_string(), "bé".to_string()];
    let r = c.walk(2, 3, &names).unwrap();
    assert_eq!(r.bytes[4], 110);
    let m: nine::p2000::Twalk = nine::de::from_bytes(&r.bytes[5..]).unwrap();
    assert_eq!(m, nine::p2000::Twalk { tag: 1, fid: 2, newfid: 3, wname: names });

    let r = c.open(3, RDWR).unwrap();
    assert_eq!(r.bytes, vec![12, 0, 0, 0, 112, 2, 0, 3, 0, 0, 0, 2]);

    let r = c.read(3, 0x0102, 7).unwrap();
    assert_eq!(r.bytes, vec![23, 0, 0, 0, 116, 3, 0, 3, 0, 0, 0, 2, 1, 0, 0, 0, 0, 0, 0, 7, 0, 0, 0]);

    let r = c.write(3, 5, vec![9, 8, 7]).unwrap();
    assert_eq!(r.bytes[4], 118);
    let m: nine::p2000::Twrite = nine::de::from_bytes(&r.bytes[5..]).unwrap();
    assert_eq!(m, nine::p2000::Twrite { tag: 4, fid: 3, offset: 5, data: vec![9, 8, 7] });

    let r = c.clunk(3).unwrap();
    assert_eq!(r.bytes, vec![11, 0, 0, 0, 120, 5, 0, 3, 0, 0, 0]);
}

#[test]
fn requests_that_cannot_be_sent() {
    let mut c = Conn::new();
    let long = "x".repeat(70000);
    assert_eq!(c.walk(1, 2, &vec![long]).unwrap_err(), Error::Encode);
    c.msize = 100;
    assert_eq!(c.write(1, 0, vec![0; 200]).unwrap_err(), Error::TooLarge);
    assert_eq!(c.next_tag, 0);
    assert!(c.pending.is_empty());
}

#[test]
fn replies_round_trip_through_the_codec() {
    let a = nine::p2000::Rattach { tag: 1, qid: nq(77) };
    assert_eq!(Conn::attach_reply(&reply(105, &a)).unwrap(), q(77));
    let w = nine::p2000::Rwalk { tag: 1, wqid: vec![nq(1), nq(2), nq(3)] };
    assert_eq!(Conn::walk_reply(&reply(111, &w)).unwrap(), vec![q(1), q(2), q(3)]);
    let o = nine::p2000::Ropen { tag: 1, qid: nq(5), iounit: 0 };
    Conn::open_reply(&reply(113, &o)).unwrap();
    let r = nine::p2000::Rread { tag: 1, data: vec![1, 2, 3] };
    assert_eq!(Conn::read_reply(&reply(117, &r)).unwrap(), vec![1, 2, 3]);
    let w = nine::p2000::Rwrite { tag: 1, count: 12 };
    assert_eq!(Conn::write_reply(&reply(119, &w)).unwrap(), 12);
    Conn::clunk_reply(&reply(121, &nine::p2000::Rclunk { tag: 1 })).unwrap();
}

#[test]
fn replies_that_are_errors() {
    let e = nine::p2000::Rerror { tag: 1, ename: "file not found".into() };
    let data = reply(107, &e);
    assert_eq!(Conn::walk_reply(&data).unwrap_err(), Error::Remote("file not found".to_string()));
    assert_eq!(Conn::read_reply(&data).unwrap_err(), Error::Remote("file not found".to_string()));
    let c = reply(121, &nine::p2000::Rclunk { tag: 1 });
    assert_eq!(Conn::read_reply(&c).unwrap_err(), Error::UnknownType { got: 121, want: 117 });
    assert_eq!(Conn::read_reply(&[]).unwrap_err(), Error::Decode);
    assert_eq!(Conn::read_reply(&[117, 1]).unwrap_err(), Error::Decode);
    assert_eq!(Conn::attach_reply(&[105, 1, 0, 0]).unwrap_err(), Error::Decode);
    assert_eq!(Conn::walk_reply(&[111, 1, 0, 2, 0]).unwrap_err(), Error::Decode);
    assert_eq!(Conn::write_reply(&[119, 1, 0, 2]).unwrap_err(), Error::Decode);
    assert_eq!(Conn::open_reply(&[113]).unwrap_err(), Error::Decode);
    assert_eq!(Conn::clunk_reply(&[121, 0]).unwrap_err(), Error::Decode);
    assert_eq!(Conn::walk_reply(&[107, 1, 0, 2, 0, 0xff, 0xfe]).unwrap_err(), Error::Decode);
    let mut c = Conn::new();
    assert_eq!(c.version_reply(&[101, 1, 0, 0]).unwrap_err(), Error::Decode);
}

#[test]
fn header_of_a_message() {
    assert_eq!(Conn::read_header(&[19, 0, 0, 0, 101]).unwrap(), (14, 101));
    assert_eq!(Conn::read_header(&[5, 0, 0, 0, 121]).unwrap(), (0, 121));
    assert_eq!(Conn::read_header(&[4, 0, 0, 0, 121]).unwrap_err(), Error::Decode);
}

#[test]
fn walk_path_elements() {
    assert_eq!(path_elements("a/b/c"), vec!["a", "b", "c"]);
    assert_eq!(path_elements("/a//./b/"), vec!["a", "b"]);
    assert!(path_elements("").is_empty());
    assert!(path_elements(".").is_empty());
    assert_eq!(path_elements("new/ctl"), vec!["new", "ctl"]);
    assert_eq!(path_elements(".."), vec![".."]);
}

#[test]
fn walk_batches() {
    let f = Fid::new(1, q(0));
    let p16 = (0..16).map(|i| format!("d{}", i)).collect::<Vec<_>>().join("/");
    let s = f.walk(9, &p16);
    assert_eq!(s.len(), 1);
    assert_eq!((s[0].fid, s[0].newfid, s[0].wname.len()), (1, 9, 16));
    let p17 = format!("{}/last", p16);
    let s = f.walk(9, &p17);
    assert_eq!(s.len(), 2);
    assert_eq!((s[0].fid, s[0].newfid, s[0].wname.len()), (1, 9, 16));
    assert_eq!((s[1].fid, s[1].newfid), (9, 9));
    assert_eq!(s[1].wname, vec!["last"]);
    let p32 = format!("{}/{}", p16, p16);
    assert_eq!(f.walk(9, &p32).len(), 2);
    let p33 = format!("{}/x", p32);
    let s = f.walk(9, &p33);
    assert_eq!(s.len(), 3);
    assert_eq!(s[2].fid, 9);
}

#[test]
fn walk_path() {
    let f = Fid::new(1, q(100));
    let s = f.walk(5, "a/b/c");
    assert_eq!(s.len(), 1);
    assert_eq!(s[0].wname, vec!["a", "b", "c"]);
    let g = f.walked(5, 3, &vec![q(1), q(2), q(3)]).unwrap();
    assert_eq!(g, Fid { qid: q(3), fid: 5, mode: READ, offset: 0 });
    assert_eq!(f.walked(5, 3, &vec![q(1), q(2)]).unwrap_err(), Error::Walk);

    for empty in ["", "."] {
        let s = f.walk(6, empty);
        assert_eq!(s.len(), 1);
        assert_eq!((s[0].fid, s[0].newfid), (1, 6));
        assert!(s[0].wname.is_empty());
        assert_eq!(f.walked(6, 0, &vec![]).unwrap().qid, q(100));
    }
}

#[test]
fn reads_are_capped() {
    let mut c = Conn::new();
    c.msize = 8192;
    let f = Fid::new(1, q(0));
    assert_eq!(f.read_count(&c, 100000), 8192 - IOHDRSZ);
    assert_eq!(f.read_count(&c, 8168), 8168);
    assert_eq!(f.read_count(&c, 8169), 8168);
    assert_eq!(f.read_count(&c, 10), 10);
    assert_eq!(f.read_count(&c, 0), 0);
}

#[test]
fn writes_go_in_pieces() {
    let mut c = Conn::new();
    c.msize = 124;
    let f = Fid::new(1, q(0));
    assert_eq!(f.next_chunk(&c, 250, 0, true), Some((0, 100)));
    assert_eq!(f.next_chunk(&c, 250, 100, false), Some((100, 200)));
    assert_eq!(f.next_chunk(&c, 250, 200, false), Some((200, 250)));
    assert_eq!(f.next_chunk(&c, 250, 250, false), None);
    assert_eq!(f.next_chunk(&c, 0, 0, true), Some((0, 0)));
    assert_eq!(f.next_chunk(&c, 0, 0, false), None);
    assert_eq!(f.next_chunk(&c, 10, 30, false), None);
}

#[test]
fn cursor_moves() {
    let mut f = Fid::new(1, q(0));
    f.open(RDWR);
    assert_eq!(f.mode, RDWR);
    f.advance(10);
    assert_eq!(f.offset, 10);
    assert_eq!(f.seek(SeekFrom::Start(4)).unwrap(), 4);
    assert_eq!(f.seek(SeekFrom::Current(6)).unwrap(), 10);
    assert_eq!(f.seek(SeekFrom::Current(-3)).unwrap(), 7);
    assert_eq!(f.seek(SeekFrom::Current(-8)).unwrap_err(), Error::Unsupported);
    assert_eq!(f.seek(SeekFrom::End(0)).unwrap_err(), Error::Unsupported);
    assert_eq!(f.offset, 7);
    assert_eq!(f.seek(SeekFrom::Current(i64::MIN)).unwrap_err(), Error::Unsupported);
}

#[test]
fn open_plans_a_walk() {
    let mut c = Conn::new();
    let fs = Fsys { fid: Fid::new(1, q(0)) };
    let p = fs.open(&mut c, "7/body").unwrap();
    assert_eq!(p.newfid, 2);
    assert_eq!(p.steps.len(), 1);
    assert_eq!((p.steps[0].fid, p.steps[0].newfid), (1, 2));
    assert_eq!(p.steps[0].wname, vec!["7", "body"]);
    c.nextfid = NOFID - 1;
    assert_eq!(fs.open(&mut c, "x").unwrap_err(), Error::OutOfFids);
}

#[test]
fn codec_edge_cases() {
    let mut c = Conn::new();
    let r = c.walk(1, 2, &vec![]).unwrap();
    assert_eq!(r.bytes, vec![17, 0, 0, 0, 110, 0, 0, 1, 0, 0, 0, 2, 0, 0, 0, 0, 0]);
    let r = c.open(1, 0xff).unwrap();
    assert_eq!(r.bytes, vec![12, 0, 0, 0, 112, 1, 0, 1, 0, 0, 0, 0x53]);
    let r = c.write(1, 0, vec![]).unwrap();
    assert_eq!(r.bytes, vec![23, 0, 0, 0, 118, 2, 0, 1, 0, 0, 0, 0, 0, 0, 0, 0, 0, 0, 0, 0, 0, 0, 0]);
    let r = c.attach(7, "é", "tree").unwrap();
    assert_eq!(
        r.bytes,
        vec![
            25, 0, 0, 0, 104, 3, 0, 7, 0, 0, 0, 0xff, 0xff, 0xff, 0xff, 2, 0, 0xc3, 0xa9, 4, 0, b't',
            b'r', b'e', b'e'
        ]
    );
    Conn::clunk_reply(&[121, 9, 0, 1, 2, 3]).unwrap();
    assert_eq!(Conn::write_reply(&[119, 1, 0, 5, 0, 0, 0, 99]).unwrap(), 5);
    assert_eq!(Conn::read_reply(&[117, 1, 0, 2, 0, 0, 0, 7, 8, 9]).unwrap(), vec![7, 8]);
    assert_eq!(Conn::read_reply(&[117, 1, 0, 2, 0, 0, 0, 7]).unwrap_err(), Error::Decode);
    assert_eq!(Conn::walk_reply(&[111, 1, 0, 0, 0]).unwrap(), vec![]);
    let mut one = vec![111, 1, 0, 1, 0, 0x80];
    one.extend(5u32.to_le_bytes());
    one.extend(0x0102030405060708u64.to_le_bytes());
    assert_eq!(
        Conn::walk_reply(&one).unwrap(),
        vec![Qid { file_type: 0x80, version: 5, path: 0x0102030405060708 }]
    );
    one.pop();
    assert_eq!(Conn::walk_reply(&one).unwrap_err(), Error::Decode);
}

#[test]
fn qid_types_are_taken_as_they_come() {
    let mut data = vec![105, 1, 0, 0x10];
    data.extend(1u32.to_le_bytes());
    data.extend(2u64.to_le_bytes());
    assert_eq!(Conn::attach_reply(&data).unwrap(), Qid { file_type: 0x10, version: 1, path: 2 });
    data[3] = 0xff;
    assert_eq!(Conn::attach_reply(&data).unwrap(), Qid { file_type: 0xff, version: 1, path: 2 });
}

#[test]
fn reads_and_writes_move_the_cursor_by_what_was_asked_at_most() {
    let mut f = Fid::new(1, q(0));
    assert_eq!(f.read_done(10, 4), Ok(4));
    assert_eq!(f.offset, 4);
    assert_eq!(f.read_done(10, 10), Ok(10));
    assert_eq!(f.read_done(10, 0), Ok(0));
    assert_eq!(f.offset, 14);
    assert_eq!(f.read_done(10, 11), Err(Error::TooMany));
    assert_eq!(f.offset, 14);
    assert_eq!(f.write_done(5, 5), Ok(5));
    assert_eq!(f.write_done(5, 6), Err(Error::TooMany));
    assert_eq!(f.offset, 19);
    f.offset = u64::MAX - 3;
    assert_eq!(f.read_done(10, 4), Err(Error::Unsupported));
    assert_eq!(f.write_done(10, 4), Err(Error::Unsupported));
    assert_eq!(f.read_done(10, 3), Ok(3));
    assert_eq!(f.offset, u64::MAX);
}

#[test]
fn walks_get_a_fresh_fid() {
    let mut c = Conn::new();
    let root = c.newfid().unwrap();
    let f = Fid::new(root, q(0));
    let p = f.walk_new(&mut c, "a/b").unwrap();
    assert_ne!(p.newfid, f.fid);
    assert_eq!(p.newfid, 3);
    assert_eq!((p.steps[0].fid, p.steps[0].newfid), (root, 3));
    let g = f.walked(p.newfid, 2, &vec![q(1), q(2)]).unwrap();
    assert_ne!(g.fid, f.fid);
    let p2 = g.walk_new(&mut c, "").unwrap();
    assert_eq!(p2.newfid, 4);
    assert_eq!((p2.steps[0].fid, p2.steps[0].newfid), (3, 4));
    c.nextfid = NOFID - 1;
    assert_eq!(f.walk_new(&mut c, "x").unwrap_err(), Error::OutOfFids);
}
