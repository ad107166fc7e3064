use acre::acme::{File, LogEvent, LogReader, NlOffsets, Win, WinInfo, WinOp};
use acre::event::{get_event, read_event, WinEvents};
use acre::Error;

#[test]
fn nloffsets() {
    let s = "12345\n678\n90";
    let n = NlOffsets::new(s.as_bytes()).unwrap();
    assert_eq!(n.offset_to_line(0), (0, 0));
    assert_eq!(n.offset_to_line(3), (0, 3));
    assert_eq!(n.offset_to_line(5), (0, 5));
    assert_eq!(n.offset_to_line(6), (1, 0));
    assert_eq!(n.offset_to_line(7), (1, 1));
    assert_eq!(n.offset_to_line(9), (1, 3));
    assert_eq!(n.offset_to_line(10), (2, 0));
    assert_eq!(n.offset_to_line(11), (2, 1));
    assert_eq!(n.last(), (2, 2));
}

#[test]
fn windows() {
    let index = "          1          32         100           0           0 /home/u/acre/ Del Snarf\n          7          40        2000           0           1 /src/a.rs Del Snarf Undo\n";
    let ws = WinInfo::windows(index).unwrap();
    assert_ne!(ws.len(), 0);
    assert_eq!(ws.len(), 2);
    assert_eq!(ws[1], WinInfo { id: 7, name: "/src/a.rs".to_string() });
}

#[test]
fn log() {
    let mut log = LogReader::new();
    let ev = log.read(b"7 focus /src/a.rs\n").unwrap();
    assert_eq!(ev, LogEvent { id: 7, op: "focus".to_string(), name: "/src/a.rs".to_string() });
    assert_eq!(log.count, 1);
}

#[test]
fn nloffsets_round_trip_within_body() {
    let n = NlOffsets::new("12345\n678\n90".as_bytes()).unwrap();
    for (l, c) in [(0u64, 0u64), (0, 5), (1, 0), (1, 3), (2, 0), (2, 2)] {
        let o = n.line_to_offset(l, c);
        assert_eq!(n.offset_to_line(o), (l, c));
    }
    assert_eq!(n.line_to_offset(1, 2), 8);
}

#[test]
fn nloffsets_clamps_to_end() {
    let n = NlOffsets::new("12345\n678\n90".as_bytes()).unwrap();
    assert_eq!(n.line_to_offset(2, 100), 12);
    assert_eq!(n.line_to_offset(3, 0), 12);
    assert_eq!(n.line_to_offset(50, 7), 12);
    assert_eq!(n.line_to_offset(0, u64::MAX), 12);
}

#[test]
fn nloffsets_counts_characters() {
    let n = NlOffsets::new("héllo\nwörld".as_bytes()).unwrap();
    assert_eq!(n.offset_to_line(6), (1, 0));
    assert_eq!(n.last(), (1, 5));
    let e = NlOffsets::new("".as_bytes()).unwrap();
    assert_eq!(e.last(), (0, 0));
    assert_eq!(e.offset_to_line(0), (0, 0));
}

#[test]
fn nloffsets_refuses_bad_utf8() {
    assert_eq!(NlOffsets::new(&[b'a', 0xff, b'\n']).unwrap_err(), Error::Utf8);
}

#[test]
fn event_plain() {
    let (e, n) = get_event(b"MX10 12 0 3 abc\nrest").unwrap();
    assert_eq!(n, 16);
    assert_eq!((e.c1, e.c2, e.q0, e.q1, e.flag, e.nr), ('M', 'X', 10, 12, 0, 3));
    assert_eq!(e.text, "abc");
    assert_eq!((e.orig_q0, e.orig_q1), (10, 12));
    assert_eq!(e.arg, "");
    assert_eq!(e.loc, "");
}

#[test]
fn event_size_limit() {
    let body = "a".repeat(256);
    let ok = format!("MX0 0 0 256 {}\n", body);
    let (e, _) = get_event(ok.as_bytes()).unwrap();
    assert_eq!(e.nr, 256);
    assert_eq!(e.text.len(), 256);
    let body = "a".repeat(257);
    let bad = format!("MX0 0 0 257 {}\n", body);
    assert_eq!(get_event(bad.as_bytes()).unwrap_err(), Error::EventTooLarge);
}

#[test]
fn event_expansion_replaces_empty_range() {
    let bytes = b"MX10 10 2 3 abc\nMX8 12 2 0 \n";
    let (e, n) = read_event(bytes).unwrap();
    assert_eq!(n, bytes.len());
    assert_eq!((e.orig_q0, e.orig_q1), (10, 10));
    assert_eq!((e.q0, e.q1), (8, 12));
    assert_eq!(e.text, "");
    assert_eq!(e.flag, 2);
}

#[test]
fn event_expansion_keeps_nonempty_range() {
    let bytes = b"MX10 13 2 3 abc\nMX8 12 0 2 xy\n";
    let (e, n) = read_event(bytes).unwrap();
    assert_eq!(n, bytes.len());
    assert_eq!((e.q0, e.q1), (10, 13));
    assert_eq!((e.orig_q0, e.orig_q1), (10, 13));
    assert_eq!(e.text, "abc");
    assert_eq!(e.flag, 2);
}

#[test]
fn event_chorded_argument() {
    let bytes = b"Mx1 4 8 3 Cmd\nMx0 0 0 3 arg\nMx0 0 0 5 /a:12\n";
    let (e, n) = read_event(bytes).unwrap();
    assert_eq!(n, bytes.len());
    assert_eq!(e.text, "Cmd");
    assert_eq!(e.arg, "arg");
    assert_eq!(e.loc, "/a:12");
}

#[test]
fn event_errors() {
    assert_eq!(get_event(b"MX1 2 0 3 abcX").unwrap_err(), Error::Phase);
    assert_eq!(get_event(b"MX1x2 0 3 abc\n").unwrap_err(), Error::EventNumber);
    assert_eq!(get_event(b"MX1 2 0 3 ab").unwrap_err(), Error::Truncated);
    assert_eq!(get_event(b"M").unwrap_err(), Error::Truncated);
    assert_eq!(get_event(b"MX99999999999 2 0 0 \n").unwrap_err(), Error::EventNumber);
    let (e, _) = get_event(b"MX 2 0 0 \n").unwrap();
    assert_eq!(e.q0, 0);
    assert_eq!(read_event(b"MX10 10 2 3 abc\n").unwrap_err(), Error::Truncated);
}

#[test]
fn win_events_buffer() {
    let mut w = WinEvents::new();
    w.feed(b"MX1 2 0 3 ab");
    assert_eq!(w.read_event().unwrap_err(), Error::Truncated);
    assert_eq!(w.pending.len(), 12);
    w.feed(b"c\nML3 4 0 0 \n");
    let e = w.read_event().unwrap();
    assert_eq!(e.text, "abc");
    let e2 = w.read_event().unwrap();
    assert_eq!((e2.c2, e2.q0, e2.q1), ('L', 3, 4));
    assert_eq!(w.pending.len(), 0);
    assert_eq!(w.write_event(e2), "ML3 4 \n");
}

#[test]
fn index_lines() {
    assert_eq!(WinInfo::parse_line("1 2 3 4 5").unwrap(), None);
    assert_eq!(
        WinInfo::parse_line(" 12 0 0 0 0 /x/y.go Del").unwrap(),
        Some(WinInfo { id: 12, name: "/x/y.go".to_string() })
    );
    assert_eq!(WinInfo::parse_line("x 0 0 0 0 name").unwrap_err(), Error::Number);
    assert_eq!(WinInfo::windows("a b\n\n").unwrap().len(), 0);
    assert_eq!(WinInfo::windows("1 0 0 0 0 a\nq 0 0 0 0 b\n").unwrap_err(), Error::Number);
}

#[test]
fn log_records() {
    let e = LogEvent::parse(b"12 put /a b/c.rs \n").unwrap();
    assert_eq!(e, LogEvent { id: 12, op: "put".to_string(), name: "/a b/c.rs".to_string() });
    assert_eq!(LogEvent::parse(b"12 put").unwrap_err(), Error::MalformedLog);
    assert_eq!(LogEvent::parse(b"12").unwrap_err(), Error::MalformedLog);
    assert_eq!(LogEvent::parse(b"x1 put a").unwrap_err(), Error::Number);
    assert_eq!(LogEvent::parse(&[0xff, b' ', b'a', b' ', b'b']).unwrap_err(), Error::Utf8);
    assert_eq!(LogEvent::parse(b"+3 del ").unwrap().id, 3);
}

#[test]
fn win_files_and_commands() {
    let w = Win::new(b"  42 0 0 0 0 \n").unwrap();
    assert_eq!(w.id(), 42);
    assert_eq!(Win::new(b"   ").unwrap_err(), Error::ShortRead);
    assert_eq!(Win::new(b"zz").unwrap_err(), Error::Number);
    assert_eq!(w.path("body"), "42/body");
    assert_eq!(w.events(), "42/event");
    assert_eq!(w.ctl("addr=dot"), WinOp::Write { file: File::Ctl, data: "addr=dot\n".to_string() });
    assert_eq!(w.addr("#3,#5"), WinOp::Write { file: File::Addr, data: "#3,#5".to_string() });
    assert_eq!(w.name("acre"), WinOp::Write { file: File::Ctl, data: "name acre\n".to_string() });
    assert_eq!(w.del(true), WinOp::Write { file: File::Ctl, data: "delete\n".to_string() });
    assert_eq!(w.del(false), WinOp::Write { file: File::Ctl, data: "del\n".to_string() });
    assert_eq!(w.read(File::Body), WinOp::Seek { file: File::Body, pos: 0 });
    assert_eq!(
        w.clear(),
        vec![
            WinOp::Write { file: File::Addr, data: ",".to_string() },
            WinOp::Write { file: File::Data, data: "".to_string() },
        ]
    );
    assert_eq!(w.read_addr(b"         10          25 ").unwrap(), (10, 25));
    assert_eq!(w.read_addr(b"10").unwrap_err(), Error::ShortRead);
    assert_eq!(w.read_addr(b"10 x").unwrap_err(), Error::Number);
}

#[test]
fn event_load_text() {
    let (mut e, _) = get_event(b"ML3 4 0 1 x\n").unwrap();
    assert!(!e.needs_text());
    e.load_text();
    assert_eq!(e.text, "x");
    let (e2, _) = get_event(b"ML3 4 0 0 \n").unwrap();
    assert!(e2.needs_text());
}

#[test]
fn event_with_expansion_and_chord() {
    let bytes = b"Mx5 5 10 0 \nMx2 9 0 4 make\nMx0 0 0 4 test\nMx0 0 0 2 /d\n";
    let (e, n) = read_event(bytes).unwrap();
    assert_eq!(n, bytes.len());
    assert_eq!(e.flag, 10);
    assert_eq!((e.q0, e.q1, e.orig_q0, e.orig_q1), (2, 9, 5, 5));
    assert_eq!(e.text, "make");
    assert_eq!(e.arg, "test");
    assert_eq!(e.loc, "/d");
    assert_eq!(read_event(b"Mx1 2 8 1 a\nMx0 0 0 1 b\n").unwrap_err(), Error::Truncated);
}

#[test]
fn window_cursor_moves() {
    let w = Win::open(3);
    assert_eq!(w.seek(File::Body, 12), WinOp::Seek { file: File::Body, pos: 12 });
    assert_eq!(w.write(File::Tag, " Get"), WinOp::Write { file: File::Tag, data: " Get".to_string() });
}

#[test]
fn selection_is_located_before_it_is_read() {
    let w = Win::open(3);
    assert_eq!(
        w.locate(),
        vec![
            WinOp::Write { file: File::Ctl, data: "addr=dot\n".to_string() },
            WinOp::Seek { file: File::Addr, pos: 0 },
        ]
    );
}
