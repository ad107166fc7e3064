use acre::lsp::{frame, parse_header, Client, DeMessage, Header, HeaderLine, MessageKind, ResponseError};
use acre::model::{Location, Method, Position, Range};
use acre::order::{cmp_location, cmp_position, cmp_range};
use acre::plumb::{plumb_location, Message};
use acre::sort::{stable_sort, str_before};
use acre::table::Table;
use acre::text::{
    chars_of, decimal_string, is_whitespace, join_strings, parse_usize, split_fields, split_lines,
    str_contains, str_eq, string_of, trimmed,
};
use acre::acme::WinInfo;
use acre::{err_str, Error};
use std::cmp::Ordering;

#[test]
fn error_strings() {
    let e = err_str("out of tags".to_string());
    assert_eq!(e.description(), "out of tags");
}

#[test]
fn decimal_numbers() {
    assert_eq!(decimal_string(0), "0");
    assert_eq!(decimal_string(7), "7");
    assert_eq!(decimal_string(10), "10");
    assert_eq!(decimal_string(1234567890), "1234567890");
    assert_eq!(decimal_string(u64::MAX), "18446744073709551615");
}

#[test]
fn parsing_numbers() {
    let p = |s: &str| parse_usize(&s.chars().collect::<Vec<_>>());
    assert_eq!(p("0"), Some(0));
    assert_eq!(p("+12"), Some(12));
    assert_eq!(p("0012"), Some(12));
    assert_eq!(p(""), None);
    assert_eq!(p("+"), None);
    assert_eq!(p("-1"), None);
    assert_eq!(p("1 "), None);
    assert_eq!(p("1a"), None);
    assert_eq!(p("18446744073709551615"), Some(usize::MAX));
    assert_eq!(p("18446744073709551616"), None);
    assert_eq!(p("99999999999999999999999"), None);
    for s in ["0", "+12", "", "+", "-1", "1a", "18446744073709551615", "18446744073709551616"] {
        assert_eq!(p(s), s.parse::<usize>().ok());
    }
}

#[test]
fn trimming_and_white_space() {
    assert_eq!(trimmed("  a b \n\t"), "a b");
    assert_eq!(trimmed(""), "");
    assert_eq!(trimmed(" \u{a0}\u{3000}x\u{2003}"), "x");
    assert_eq!(trimmed("\n\n"), "");
    for c in (0u32..0x3100).filter_map(char::from_u32) {
        assert_eq!(is_whitespace(c), c.is_whitespace());
    }
}

#[test]
fn lines_of_a_text() {
    let views = |s: &str| split_lines(s);
    assert_eq!(views("a\nb\r\nc"), vec!["a", "b", "c"]);
    assert_eq!(views("a\n"), vec!["a"]);
    assert_eq!(views("a\n\n"), vec!["a", ""]);
    assert_eq!(views("\n"), vec![""]);
    assert!(views("").is_empty());
    assert_eq!(views("a\r"), vec!["a\r"]);
    for s in ["a\nb\r\nc", "a\n", "a\n\n", "\n", "", "a\r", "\r\n\r\n", "x\ry\n"] {
        assert_eq!(split_lines(s), s.lines().map(|l| l.to_string()).collect::<Vec<_>>());
    }
}

#[test]
fn fields_of_a_line() {
    let f = |s: &str| split_fields(&chars_of(s));
    assert_eq!(f(" a  bc\td\n"), vec!["a", "bc", "d"]);
    assert!(f("   ").is_empty());
    assert!(f("").is_empty());
    assert_eq!(f("x"), vec!["x"]);
}

#[test]
fn searching_and_comparing() {
    assert!(str_contains("hello", "ell"));
    assert!(str_contains("hello", ""));
    assert!(str_contains("", ""));
    assert!(!str_contains("hello", "elo"));
    assert!(!str_contains("he", "hello"));
    assert!(str_contains("ab", "ab"));
    assert!(str_eq("ab", "ab"));
    assert!(!str_eq("ab", "abc"));
    assert!(!str_eq("ab", "ac"));
    assert!(str_before("a", "b"));
    assert!(str_before("a", "ab"));
    assert!(!str_before("ab", "a"));
    assert!(!str_before("a", "a"));
    assert!(str_before("z", "é"));
    assert_eq!(string_of(&['a', 'é']), "aé");
    assert_eq!(join_strings(&vec!["a".to_string(), "b".to_string()], ", "), "a, b");
    assert_eq!(join_strings(&vec![], ", "), "");
}

#[test]
fn sorting_is_stable() {
    let w = |id: usize, name: &str| WinInfo { id, name: name.to_string() };
    let v = vec![w(3, "b"), w(2, "a"), w(1, "b"), w(5, "a"), w(4, "")];
    let s = stable_sort(v);
    assert_eq!(s, vec![w(4, ""), w(2, "a"), w(5, "a"), w(1, "b"), w(3, "b")]);
    assert!(stable_sort(Vec::<WinInfo>::new()).is_empty());
}

#[test]
fn order_of_locations() {
    let p = |line, character| Position { line, character };
    assert_eq!(cmp_position(&p(1, 2), &p(1, 3)), Ordering::Less);
    assert_eq!(cmp_position(&p(2, 0), &p(1, 3)), Ordering::Greater);
    assert_eq!(cmp_position(&p(1, 3), &p(1, 3)), Ordering::Equal);
    let r = |a, b| Range { start: a, end: b };
    assert_eq!(cmp_range(&r(p(1, 1), p(1, 2)), &r(p(1, 1), p(1, 3))), Ordering::Less);
    assert_eq!(cmp_range(&r(p(1, 2), p(1, 2)), &r(p(1, 1), p(9, 3))), Ordering::Greater);
    let l = |uri: &str, line| Location {
        uri: uri.to_string(),
        path: uri.to_string(),
        range: r(p(line, 0), p(line, 1)),
    };
    assert_eq!(cmp_location(&l("file:///a", 9), &l("file:///b", 1)), Ordering::Less);
    assert_eq!(cmp_location(&l("file:///b", 9), &l("file:///a", 1)), Ordering::Greater);
    assert_eq!(cmp_location(&l("file:///a", 1), &l("file:///a", 2)), Ordering::Less);
    assert_eq!(cmp_location(&l("file:///a", 2), &l("file:///a", 2)), Ordering::Equal);
}

#[test]
fn tables_keep_their_order() {
    let mut t: Table<String, u32> = Table::new();
    assert_eq!(t.insert("a".to_string(), 1), None);
    assert_eq!(t.insert("b".to_string(), 2), None);
    assert_eq!(t.insert("a".to_string(), 3), Some(1));
    assert_eq!(t.len(), 2);
    assert_eq!(t.entries, vec![("a".to_string(), 3), ("b".to_string(), 2)]);
    assert_eq!(t.get(&"b".to_string()), Some(&2));
    assert_eq!(t.get(&"c".to_string()), None);
    assert_eq!(t.find(&"b".to_string()), 1);
    assert_eq!(t.find(&"zz".to_string()), 2);
    assert!(t.contains_key(&"a".to_string()));
    assert_eq!(t.replace_at(1, 9), 2);
    assert_eq!(t.remove(&"a".to_string()), Some(3));
    assert_eq!(t.remove(&"a".to_string()), None);
    assert_eq!(t.entries, vec![("b".to_string(), 9)]);
    t.clear();
    assert_eq!(t.len(), 0);
}

#[test]
fn plumb_records() {
    let m = Message { dst: "edit".to_string(), typ: "text".to_string(), data: b"/src/a.rs:4".to_vec() };
    assert_eq!(m.send(), b"\nedit\n\ntext\n\n11\n/src/a.rs:4".to_vec());
    let e = Message { dst: "".to_string(), typ: "".to_string(), data: vec![] };
    assert_eq!(e.send(), b"\n\n\n\n\n0\n".to_vec());
    let r = plumb_location("/src/a.rs:4");
    assert_eq!(r.path, "/src/a.rs");
    assert_eq!(r.message, m);
    assert_eq!(plumb_location("nocolon").path, "nocolon");
    assert_eq!(plumb_location(":x").path, "");
}

#[test]
fn frames_and_headers() {
    assert_eq!(frame("{}"), "Content-Length: 2\r\n\r\n{}");
    assert_eq!(frame("é"), "Content-Length: 2\r\n\r\né");
    assert_eq!(frame(""), "Content-Length: 0\r\n\r\n");
    assert_eq!(parse_header("Content-Length: 12\r\n"), Ok(HeaderLine::ContentLength(12)));
    assert_eq!(parse_header("\r\n"), Ok(HeaderLine::End));
    assert_eq!(parse_header(""), Ok(HeaderLine::End));
    assert_eq!(parse_header("Content-Length 12"), Err(Error::BadHeader));
    assert_eq!(parse_header("Content-Length:12"), Err(Error::BadHeader));
    assert_eq!(parse_header("Content-Type: x"), Err(Error::UnknownHeader));
    assert_eq!(parse_header("Content-Length: x"), Err(Error::Number));
    assert_eq!(parse_header("Content-Length: 7: 8"), Ok(HeaderLine::ContentLength(7)));
    let mut h = Header::new();
    assert_eq!(h.line("\r\n"), Err(Error::MissingLength));
    assert_eq!(h.line("Content-Length: 34\r\n"), Ok(None));
    assert_eq!(h.line("Content-Type: x\r\n"), Err(Error::UnknownHeader));
    assert_eq!(h.line("\r\n"), Ok(Some(34)));
}

#[test]
fn message_kinds_and_ids() {
    let m = |id: Option<usize>, method: Option<&str>, error: bool| DeMessage {
        id,
        method: method.map(|s| s.to_string()),
        params: None,
        result: None,
        error: if error {
            Some(ResponseError { code: 1, message: "m".to_string(), data: None })
        } else {
            None
        },
    };
    assert_eq!(m(Some(1), None, true).kind(), MessageKind::Error);
    assert_eq!(m(Some(1), Some("x"), true).kind(), MessageKind::Error);
    assert_eq!(m(Some(1), Some("x"), false).kind(), MessageKind::Request);
    assert_eq!(m(Some(1), None, false).kind(), MessageKind::Response);
    assert_eq!(m(None, Some("x"), false).kind(), MessageKind::Notification);
    assert_eq!(m(None, Some("x"), true).kind(), MessageKind::Notification);
    assert_eq!(m(None, None, false).kind(), MessageKind::Unknown);
    let mut c = Client::new("rls".to_string(), r"\.rs$".to_string());
    assert_eq!(c.new_id(), Some(1));
    assert_eq!(c.new_id(), Some(2));
    c.next_id = usize::MAX;
    assert_eq!(c.new_id(), None);
    assert_eq!(Method::GotoDefinition.name(), "textDocument/definition");
    assert_eq!(Method::SemanticTokensRange.name(), "textDocument/semanticTokens/range");
}

#[test]
fn error_messages() {
    assert_eq!(Error::OutOfTags.message(), "out of tags");
    assert_eq!(Error::InvalidMsize(200000).message(), "invalid msize 200000");
    assert_eq!(Error::InvalidVersion("9P1".to_string()).message(), "invalid version 9P1");
    assert_eq!(Error::UnknownType { got: 121, want: 117 }.message(), "unknown type: 121, expected: 117");
    assert_eq!(Error::Remote("no such file".to_string()).message(), "no such file");
    assert_eq!(Error::EventNumber.message(), "event number syntax");
    assert_eq!(Error::EventTooLarge.message(), "event size too long");
    assert_eq!(Error::Phase.message(), "phase error");
    assert_eq!(Error::MalformedLog.message(), "malformed log event");
    assert_eq!(Error::UnexpectedTag(7).message(), "unexpected tag 7");
    let e = Error::Walk.to_err_str();
    assert_eq!(e.description(), "walk failed");
    assert_eq!(e.message(), "walk failed");
    for e in [
        Error::Utf8,
        Error::Number,
        Error::ShortRead,
        Error::Truncated,
        Error::OutOfFids,
        Error::Decode,
        Error::Encode,
        Error::TooLarge,
        Error::Unsupported,
        Error::NoSuchFile,
        Error::NoSuchWindow,
        Error::NoSuchLine,
        Error::ExpectedSignature,
        Error::BadHeader,
        Error::UnknownHeader,
        Error::MissingLength,
    ] {
        assert!(!e.message().is_empty());
    }
}

#[test]
fn messages_for_a_server() {
    let r = acre::lsp::request_message(3, "textDocument/hover", "{\"a\":1}");
    assert_eq!(r, "{\"jsonrpc\":\"2.0\",\"id\":3,\"method\":\"textDocument/hover\",\"params\":{\"a\":1}}");
    let v: serde_json::Value = serde_json::from_str(&r).unwrap();
    assert_eq!(v["id"].as_u64(), Some(3));
    assert_eq!(v["method"].as_str(), Some("textDocument/hover"));
    assert_eq!(v["params"]["a"].as_u64(), Some(1));
    let n = acre::lsp::notification_message("initialized", "{}");
    assert_eq!(n, "{\"jsonrpc\":\"2.0\",\"method\":\"initialized\",\"params\":{}}");
    assert_eq!(
        acre::lsp::code_action_kinds(),
        vec![
            "",
            "quickfix",
            "refactor",
            "refactor.extract",
            "refactor.inline",
            "refactor.rewrite",
            "source",
            "source.organizeImports"
        ]
    );
}

#[test]
fn helpers_agree_with_the_standard_library() {
    let samples = [
        "", " ", "a", " a ", "a b", "\ta\u{a0}b\n", "héllo wörld", "  x  y  ", "a\r\nb", "\u{2003}q\u{3000}",
        "abcabc", "日本語 テキスト", "a/b/c", "/a//./b/", ".", "..", "./.", "new/ctl",
    ];
    for s in samples {
        assert_eq!(trimmed(s), s.trim());
        assert_eq!(
            split_fields(&chars_of(s)),
            s.split_whitespace().map(|x| x.to_string()).collect::<Vec<_>>()
        );
        assert_eq!(chars_of(s), s.chars().collect::<Vec<_>>());
        assert_eq!(
            acre::fid::path_elements(s),
            s.split("/").filter(|&x| x != "" && x != ".").map(|x| x.to_string()).collect::<Vec<_>>()
        );
        for t in samples {
            assert_eq!(str_contains(s, t), s.contains(t));
            assert_eq!(str_before(s, t), s < t);
            assert_eq!(str_eq(s, t), s == t);
        }
    }
    for n in [0u64, 9, 10, 99, 100, 12345, u32::MAX as u64, u64::MAX] {
        assert_eq!(decimal_string(n), format!("{}", n));
    }
}
