use acre::acme::{body_ops, File, WinInfo, WinOp};
use acre::event::get_event;
use acre::hover::{ActionRef, HoverUpdate, WindowHover};
use acre::lsp::{DeMessage, ResponseError};
use acre::model::{
    Action, Capabilities, CodeActionOrCommand, CodeLens, CompletionItem, CompletionTextEdit,
    DocumentChanges, InsertTextFormat, Location, Method, Position, Range, TextDocumentEdit,
    TextEdit, UrlEdits, WorkspaceEdit,
};
use acre::plumb::plumb_location;
use acre::server::actions::{run_edits, CmdOutcome};
use acre::server::commands::{
    log_action, request_for, route_event, wants_sync, Click, Effect, EventRoute, LogAction, Wake,
};
use acre::server::dispatch::Incoming;
use acre::server::edits::{
    apply_workspace_edit, diff_writes, edit_texts, plan_text_edits, range_writes, DocEdits,
};
use acre::server::windows::Candidate;
use acre::server::respond::{
    diagnostics_output, flat_symbols_output, goto_definition, hover_text, location_to_plumb,
    message_output, references_output, signature_text, Diagnostic, Documentation, GotoResponse,
    HoverContents, Signature, SignatureHelp, SymbolInformation, WorkDoneProgress,
};
use acre::server::symbols::{nested_symbols, DocumentSymbol};
use acre::server::respond::{notice_for, Notice};
use acre::server::windows::pick_owner;
use acre::server::{
    format_pct, ClientId, ConfigServer, Outgoing, Params, Server, ServerWin, WDProgress,
};
use acre::outside::LineDiff;
use acre::table::Table;
use acre::Error;

fn caps() -> Capabilities {
    Capabilities {
        definition: true,
        implementation: false,
        references: true,
        document_symbol: true,
        type_definition: false,
        document_formatting: true,
    }
}

fn config(entries: &[(&str, &str)]) -> Table<String, ConfigServer> {
    Table {
        entries: entries
            .iter()
            .map(|(n, f)| {
                (
                    n.to_string(),
                    ConfigServer { files: f.to_string(), actions_on_put: None, format_on_put: None },
                )
            })
            .collect(),
    }
}

fn win(id: usize, name: &str) -> WinInfo {
    WinInfo { id, name: name.to_string() }
}

fn pos(line: u32, character: u32) -> Position {
    Position { line, character }
}

fn range(a: (u32, u32), b: (u32, u32)) -> Range {
    Range { start: pos(a.0, a.1), end: pos(b.0, b.1) }
}

fn server() -> Server {
    let (mut s, out) = Server::new(config(&[("rls", r"\.rs$"), ("gopls", r"\.go$")]));
    assert_eq!(out.len(), 2);
    let msg = DeMessage {
        id: Some(1),
        method: None,
        params: None,
        result: Some("{}".to_string()),
        error: None,
    };
    assert!(matches!(s.lsp_msg("rls".to_string(), msg), Incoming::Response(_)));
    let e = s.on_initialize("rls", caps());
    assert_eq!(
        e,
        vec![
            Effect::Send(Outgoing::Initialized { client: "rls".to_string() }),
            Effect::SyncWindows
        ]
    );
    s
}

fn with_windows() -> Server {
    let mut s = server();
    let plan = s.sync_windows(vec![win(7, "/src/a.rs"), win(3, "/x.rs"), win(9, "/notes.txt")]).unwrap();
    assert_eq!(plan.open, vec![7, 3]);
    assert!(plan.close.is_empty());
    s
}

#[test]
fn new_server_has_open_initialize_requests() {
    let (s, out) = Server::new(config(&[("rls", r"\.rs$"), ("gopls", r"\.go$")]));
    assert_eq!(
        out[0],
        Outgoing::Request {
            client: "rls".to_string(),
            id: 1,
            method: Method::Initialize,
            url: "file:///".to_string(),
            params: Params::Document,
        }
    );
    assert_eq!(s.requests.entries.len(), 2);
    assert_eq!(s.requests.entries[1].0, ClientId::new("gopls".to_string(), 1));
    assert_eq!(s.requests.entries[1].1.path, "/");
    assert_eq!(s.clients.entries[0].1.next_id, 2);
}

#[test]
fn requests_are_open_until_answered() {
    let mut s = with_windows();
    let before = s.requests.entries.len();
    let id = s.send_request("rls", "file:///x.rs", "/x.rs", Method::Hover).unwrap();
    assert_eq!(id, 2);
    assert_eq!(s.requests.entries.len(), before + 1);
    let n = s
        .requests
        .entries
        .iter()
        .filter(|e| e.0 == ClientId::new("rls".to_string(), id))
        .count();
    assert_eq!(n, 1);
    assert_eq!(s.send_request("nobody", "u", "p", Method::Hover), None);

    let msg = DeMessage {
        id: Some(id),
        method: None,
        params: None,
        result: Some("null".to_string()),
        error: None,
    };
    match s.lsp_msg("rls".to_string(), msg) {
        Incoming::Response(a) => {
            assert_eq!(a.id, ClientId::new("rls".to_string(), id));
            assert_eq!(a.pending.method, Method::Hover);
            assert_eq!(a.pending.url, "file:///x.rs");
            assert_eq!(a.result, "null");
        }
        other => panic!("{:?}", other),
    }
    assert_eq!(s.requests.entries.len(), before);

    let id = s.send_request("rls", "file:///x.rs", "/x.rs", Method::References).unwrap();
    assert_eq!(id, 3);
    let msg = DeMessage {
        id: Some(id),
        method: None,
        params: None,
        result: None,
        error: Some(ResponseError { code: -1, message: "no".to_string(), data: None }),
    };
    assert_eq!(s.lsp_msg("rls".to_string(), msg), Incoming::Error);
    assert_eq!(s.output, "no");
    assert_eq!(s.requests.entries.len(), before);
}

#[test]
fn other_messages() {
    let mut s = with_windows();
    let m = |id: Option<usize>, method: Option<&str>, result: Option<&str>| DeMessage {
        id,
        method: method.map(|x| x.to_string()),
        params: Some("[1]".to_string()),
        result: result.map(|x| x.to_string()),
        error: None,
    };
    assert_eq!(s.lsp_msg("rls".to_string(), m(Some(4), Some("x"), None)), Incoming::Request);
    assert_eq!(s.lsp_msg("rls".to_string(), m(Some(99), None, Some("1"))), Incoming::Unexpected);
    let id = s.send_request("rls", "file:///x.rs", "/x.rs", Method::Hover).unwrap();
    assert_eq!(s.lsp_msg("rls".to_string(), m(Some(id), None, None)), Incoming::Empty);
    assert_eq!(s.lsp_msg("rls".to_string(), m(Some(id), None, None)), Incoming::Unexpected);
    assert_eq!(s.lsp_msg("rls".to_string(), m(None, None, None)), Incoming::Unknown);
    assert_eq!(
        s.lsp_msg("rls".to_string(), m(None, Some("window/logMessage"), None)),
        Incoming::Notification {
            method: "window/logMessage".to_string(),
            params: Some("[1]".to_string())
        }
    );
}

#[test]
fn versions_grow_with_every_change() {
    let mut s = with_windows();
    let v0 = s.ws.get(&7).unwrap().version;
    assert_eq!(v0, 1);
    let o = s.did_open(7, "fn main() {}".to_string()).unwrap();
    assert_eq!(
        o,
        Outgoing::DidOpen {
            client: "rls".to_string(),
            url: "file:///src/a.rs".to_string(),
            version: 2,
            text: "fn main() {}".to_string(),
        }
    );
    let c = s.did_change(7, "x".to_string()).unwrap();
    assert_eq!(
        c,
        Outgoing::DidChange {
            client: "rls".to_string(),
            url: "file:///src/a.rs".to_string(),
            version: 3,
            text: "x".to_string(),
        }
    );
    assert_eq!(s.did_change(7, "y".to_string()).map(|m| matches!(m, Outgoing::DidChange { version: 4, .. })), Some(true));
    assert_eq!(s.ws.get(&7).unwrap().version, 4);
    assert_eq!(s.ws.get(&3).unwrap().version, 1);
    assert_eq!(s.did_change(1234, "y".to_string()), None);
    let mut w = ServerWin::new(1, "u".to_string(), "p".to_string(), "c".to_string());
    w.version = i32::MAX;
    assert!(w.change_params("t".to_string()).is_none());
    assert_eq!(w.doc_ident(), "u");
}

#[test]
fn windows_are_taken_up_in_order() {
    let s = with_windows();
    assert_eq!(s.names, vec![("/src/a.rs".to_string(), 7), ("/x.rs".to_string(), 3)]);
    assert_eq!(s.files.entries[0], ("/src/a.rs".to_string(), "rls".to_string()));
    assert_eq!(s.ws.len(), 2);
    assert_eq!(s.ws.get(&7).unwrap().url, "file:///src/a.rs");
    assert_eq!(s.ws.get(&7).unwrap().path, "/src/a.rs");
    assert_eq!(s.opened_urls.entries.len(), 2);
    assert_eq!(s.owner("/q.rs"), Some("rls".to_string()));
    assert_eq!(s.owner("/q.go"), None);
    assert_eq!(s.owner("/q.txt"), None);
}

#[test]
fn closed_windows_are_closed_once() {
    let mut s = with_windows();
    let plan = s.sync_windows(vec![win(7, "/src/a.rs")]).unwrap();
    assert!(plan.open.is_empty());
    assert_eq!(
        plan.close,
        vec![Outgoing::DidClose { client: "rls".to_string(), url: "file:///x.rs".to_string() }]
    );
    assert_eq!(s.ws.len(), 1);
    assert_eq!(s.opened_urls.entries.len(), 1);
    let again = s.sync_windows(vec![win(7, "/src/a.rs")]).unwrap();
    assert!(again.open.is_empty());
    assert!(again.close.is_empty());
    let back = s.sync_windows(vec![win(7, "/src/a.rs"), win(4, "/x.rs")]).unwrap();
    assert_eq!(back.open, vec![4]);
}

#[test]
fn windows_that_are_gone_are_closed_in_order_of_name() {
    let mut s = with_windows();
    let plan = s.sync_windows(vec![win(12, "/z.rs")]).unwrap();
    assert_eq!(plan.open, vec![12]);
    assert_eq!(
        plan.close,
        vec![
            Outgoing::DidClose { client: "rls".to_string(), url: "file:///src/a.rs".to_string() },
            Outgoing::DidClose { client: "rls".to_string(), url: "file:///x.rs".to_string() },
        ]
    );
    assert_eq!(s.ws.len(), 1);
    assert!(s.ws.contains_key(&12));
    assert_eq!(s.names, vec![("/z.rs".to_string(), 12)]);
    assert_eq!(s.opened_urls.entries.len(), 1);
    assert_eq!(s.opened_urls.entries[0].0, "file:///z.rs");
    let none = s.sync_windows(vec![]).unwrap();
    assert_eq!(none.close.len(), 1);
    assert!(s.ws.is_empty());
    assert!(s.names.is_empty());
    assert!(s.opened_urls.entries.is_empty());
}

#[test]
fn zerox_windows_open_once() {
    let mut s = server();
    let plan = s.sync_windows(vec![win(7, "/src/a.rs"), win(8, "/src/a.rs")]).unwrap();
    assert_eq!(plan.open, vec![7]);
    assert_eq!(s.ws.len(), 2);
    assert_eq!(s.names, vec![("/src/a.rs".to_string(), 7), ("/src/a.rs".to_string(), 8)]);
}

#[test]
fn owner_is_the_first_server_that_is_ready() {
    assert_eq!(pick_owner(&vec![(false, true), (true, false), (true, true), (true, true)]), Some(2));
    assert_eq!(pick_owner(&vec![(true, false)]), None);
    assert_eq!(pick_owner(&vec![]), None);
}

#[test]
fn body_is_written_once() {
    let mut s = with_windows();
    s.focus = "/x.rs".to_string();
    s.output = "  one\ntwo\n".to_string();
    let body = s.sync().unwrap();
    let frame = " /src/a.rs\n\t[definition] [references] [symbols] \n*/x.rs\n\t[definition] [references] [symbols] \n-----\n\none\ntwo\n\ngopls: /: initialize...\n";
    assert_eq!(body, frame);
    assert_eq!(s.body, frame);
    assert_eq!(s.addr, vec![(0, 7), (49, 3), (94, 0)]);
    assert_eq!(s.sync(), None);
    assert_eq!(s.sync(), None);
    s.output = "three".to_string();
    assert!(s.sync().is_some());
    assert_eq!(
        body_ops("b".to_string()),
        vec![
            WinOp::Write { file: File::Addr, data: ",".to_string() },
            WinOp::Write { file: File::Data, data: "b".to_string() },
            WinOp::Write { file: File::Ctl, data: "cleartag\nclean\n".to_string() },
            WinOp::Write { file: File::Tag, data: " Get".to_string() },
        ]
    );
}

#[test]
fn body_shows_everything() {
    let mut s = with_windows();
    s.focus_requests(7, pos(0, 0), "let x = 1;".to_string());
    s.set_hover("file:///src/a.rs", HoverUpdate::Hover(" i32 \n".to_string()));
    s.publish_diagnostics(
        "/src/a.rs",
        &vec![Diagnostic { message: "bad\nthing".to_string(), line: 3, severity: None }],
    );
    s.publish_diagnostics("/empty.rs", &vec![]);
    s.progress(
        "rls",
        "1",
        WorkDoneProgress::Begin {
            title: "Indexing".to_string(),
            message: Some("crates".to_string()),
            percentage: Some(40),
        },
    )
    .unwrap();
    s.output = (0..60).map(|i| format!("l{}\n", i)).collect();
    let body = s.sync().unwrap();
    let mut want = String::from("i32\n\n----\n/src/a.rs:4: [Error] bad\n\n");
    want.push_str(" /src/a.rs\n\t[definition] [references] [symbols] \n /x.rs\n\t[definition] [references] [symbols] \n-----\n\n");
    for i in 0..50 {
        want.push_str(&format!("l{}\n", i));
    }
    want.push_str("\n[40%] rls-1:crates (Indexing)\n\n");
    for m in [
        "textDocument/hover",
        "textDocument/codeAction",
        "textDocument/completion",
        "textDocument/semanticTokens/range",
        "textDocument/signatureHelp",
        "textDocument/codeLens",
    ] {
        want.push_str(&format!("rls: /src/a.rs: {}...\n", m));
    }
    let gopls = "gopls: /: initialize...\n";
    let idx = want.find("rls: /src/a.rs: textDocument/hover").unwrap();
    want.insert_str(idx, gopls);
    assert_eq!(body, want);
}

#[test]
fn rows_without_capabilities() {
    let (mut s, _) = Server::new(config(&[("rls", r"\.rs$")]));
    s.names = vec![("/a.rs".to_string(), 1)];
    s.files.insert("/a.rs".to_string(), "rls".to_string());
    let body = s.sync().unwrap();
    assert_eq!(body, " /a.rs\n\t-----\n\nrls: /: initialize...\n");
}

#[test]
fn progress_is_kept_until_it_ends() {
    let mut s = server();
    let r = s.progress("rls", "tok", WorkDoneProgress::Report { message: None, percentage: Some(1) });
    assert_eq!(r, Err(Error::NoSuchProgress));
    assert_eq!(s.progress.entries.len(), 0);
    s.progress(
        "rls",
        "tok",
        WorkDoneProgress::Begin { title: "T".to_string(), message: None, percentage: None },
    )
    .unwrap();
    assert_eq!(s.progress.entries[0].1.to_text(), "[?%] rls-tok: (T)");
    s.progress(
        "rls",
        "tok",
        WorkDoneProgress::Report { message: Some("m".to_string()), percentage: Some(5) },
    )
    .unwrap();
    assert_eq!(s.progress.entries[0].1.to_text(), "[5%] rls-tok:m (T)");
    s.progress("rls", "tok", WorkDoneProgress::End).unwrap();
    assert_eq!(s.progress.entries.len(), 0);
    assert_eq!(format_pct(None), "?");
    assert_eq!(format_pct(Some(100)), "100");
    let p = WDProgress::new("n".to_string(), Some(3), None, None);
    assert_eq!(p.to_text(), "[3%] n: ()");
    let p = WDProgress::new(
        "rls-1".to_string(),
        None,
        Some("indexing".to_string()),
        Some("Build".to_string()),
    );
    assert_eq!(p.to_text(), "[?%] rls-1:indexing (Build)");
    let p = WDProgress { percentage: Some(40), ..p };
    assert!(p.to_text().starts_with("[40%]"));
}

#[test]
fn hover_is_folded_into_text_and_actions() {
    let mut h = WindowHover::new(
        "rls".to_string(),
        "file:///a.rs".to_string(),
        "/a.rs".to_string(),
        "let value = compute();".to_string(),
    );
    let item = |label: &str, filter: Option<&str>| CompletionItem {
        label: label.to_string(),
        filter_text: filter.map(|s| s.to_string()),
        deprecated: None,
        kind: None,
        detail: None,
        insert_text_format: None,
        text_edit: None,
    };
    h.apply(HoverUpdate::Hover("  fn compute() -> i32 \n".to_string()));
    assert_eq!(h.body, "fn compute() -> i32\n");
    assert_eq!(h.action_addrs, vec![(20, None)]);
    h.apply(HoverUpdate::Signature("compute()".to_string()));
    assert_eq!(h.body, "fn compute() -> i32\n\ncompute()\n");
    h.apply(HoverUpdate::Completion(vec![
        item("compute", None),
        item("other", None),
        CompletionItem {
            deprecated: Some(true),
            kind: Some("Function".to_string()),
            detail: Some("fn()".to_string()),
            ..item("x", Some("precompute"))
        },
    ]));
    assert!(h.actions.is_empty());
    h.apply(HoverUpdate::Token { start: 12, length: 7 });
    assert_eq!(h.token, Some("compute".to_string()));
    assert_eq!(h.actions, vec![ActionRef::Completion(0), ActionRef::Completion(2)]);
    h.apply(HoverUpdate::CodeActions(vec![CodeActionOrCommand::Command {
        title: "Fix it".to_string(),
        edits: vec![],
    }]));
    h.apply(HoverUpdate::Lens(vec![CodeLens { raw: "{}".to_string() }]));
    assert_eq!(
        h.actions,
        vec![
            ActionRef::CodeAction(0),
            ActionRef::Completion(0),
            ActionRef::Completion(2),
            ActionRef::Lens(0)
        ]
    );
    let want = "fn compute() -> i32\n\ncompute()\n\n\n[Fix it]\n[insert] compute:\n[insert] x: DEPRECATED (Function) fn()";
    assert_eq!(h.body, want);
    assert_eq!(h.action_addrs, vec![(32, Some(0)), (41, Some(1)), (59, Some(2)), (98, Some(3)), (98, None)]);
    h.apply(HoverUpdate::ClearActions);
    assert_eq!(h.actions, vec![ActionRef::Lens(0)]);
    assert_eq!(h.body, "fn compute() -> i32\n\ncompute()\n\n");
    h.apply(HoverUpdate::Token { start: 100, length: 7 });
    assert_eq!(h.token, Some("".to_string()));
    h.apply(HoverUpdate::Token { start: 18, length: 70 });
    assert_eq!(h.token, Some("e();".to_string()));
}

#[test]
fn hover_without_text_starts_with_the_action() {
    let mut h = WindowHover::new("c".to_string(), "u".to_string(), "p".to_string(), "".to_string());
    h.apply(HoverUpdate::CodeActions(vec![
        CodeActionOrCommand::CodeAction { title: "A".to_string(), edit: None, raw: "".to_string() },
        CodeActionOrCommand::Command { title: "B".to_string(), edits: vec![] },
    ]));
    assert_eq!(h.body, "[A]\n[B]");
    assert_eq!(h.action_addrs, vec![(0, Some(0)), (3, Some(1)), (7, None)]);
}

#[test]
fn at_most_ten_completions() {
    let mut h = WindowHover::new("c".to_string(), "u".to_string(), "p".to_string(), "ab".to_string());
    let items = (0..15)
        .map(|i| CompletionItem {
            label: format!("ab{}", i),
            filter_text: None,
            deprecated: None,
            kind: None,
            detail: None,
            insert_text_format: None,
            text_edit: None,
        })
        .collect();
    h.apply(HoverUpdate::Completion(items));
    h.apply(HoverUpdate::Token { start: 0, length: 2 });
    assert_eq!(h.actions.len(), 10);
    assert_eq!(h.actions[9], ActionRef::Completion(9));
}

#[test]
fn stale_hover_updates_are_dropped() {
    let mut s = with_windows();
    s.set_hover("file:///src/a.rs", HoverUpdate::Hover("x".to_string()));
    assert!(s.current_hover.is_none());
    s.focus_requests(7, pos(0, 0), "l".to_string());
    s.set_hover("file:///x.rs", HoverUpdate::Hover("x".to_string()));
    assert_eq!(s.current_hover.as_ref().unwrap().hover, None);
    s.on_hover("file:///src/a.rs", &HoverContents::Markup(" m ".to_string())).unwrap();
    assert_eq!(s.current_hover.as_ref().unwrap().hover, Some("m".to_string()));
    assert_eq!(s.current_hover.as_ref().unwrap().body, "m\n");
    assert_eq!(s.on_hover("file:///src/a.rs", &HoverContents::Scalar), Err(Error::Unsupported));
}

#[test]
fn focus_asks_six_things() {
    let mut s = with_windows();
    s.set_focus("/src/a.rs".to_string());
    assert_eq!(s.focus, "/src/a.rs");
    assert_eq!(s.get_sw_by_name("/src/a.rs").unwrap().id, 7);
    assert_eq!(s.get_sw_by_name("/nope").unwrap_err(), Error::NoSuchFile);
    let out = s.focus_requests(7, pos(2, 4), "  let x".to_string());
    let methods: Vec<Method> = out
        .iter()
        .map(|m| match m {
            Outgoing::Request { method, .. } => *method,
            _ => panic!(),
        })
        .collect();
    assert_eq!(
        methods,
        vec![
            Method::Hover,
            Method::CodeAction,
            Method::Completion,
            Method::SemanticTokensRange,
            Method::SignatureHelp,
            Method::CodeLens
        ]
    );
    assert_eq!(
        out[1],
        Outgoing::Request {
            client: "rls".to_string(),
            id: 3,
            method: Method::CodeAction,
            url: "file:///src/a.rs".to_string(),
            params: Params::CodeAction { range: range((2, 4), (2, 4)), only: None },
        }
    );
    assert_eq!(
        out[5],
        Outgoing::Request {
            client: "rls".to_string(),
            id: 7,
            method: Method::CodeLens,
            url: "file:///src/a.rs".to_string(),
            params: Params::Document,
        }
    );
    let h = s.current_hover.as_ref().unwrap();
    assert_eq!((h.client_name.as_str(), h.url.as_str(), h.line.as_str()), ("rls", "file:///src/a.rs", "  let x"));
    assert_eq!(s.requests.entries.len(), 7);
    assert!(s.focus_requests(1234, pos(0, 0), "".to_string()).is_empty());
}

#[test]
fn definition_click() {
    let mut s = with_windows();
    s.addr = vec![(128, 7), (170, 3), (200, 0)];
    let (ev, _) = get_event(b"ML140 150 0 10 definition\n").unwrap();
    assert_eq!(route_event(&ev), EventRoute::Forward);
    assert_eq!(s.resolve_click(ev.q0), Click::Window(7));
    assert_eq!(s.run_cmd(&ev), CmdOutcome::Window(7));
    assert_eq!(request_for(&ev.text), Some(Method::GotoDefinition));
    let out = s.run_event(&ev.text, 7, pos(3, 2)).unwrap();
    assert_eq!(
        out,
        Outgoing::Request {
            client: "rls".to_string(),
            id: 2,
            method: Method::GotoDefinition,
            url: "file:///src/a.rs".to_string(),
            params: Params::Position(pos(3, 2)),
        }
    );
    let goto = GotoResponse::Array(vec![Location {
        uri: "file:///src/a.rs".to_string(),
        path: "/src/a.rs".to_string(),
        range: range((3, 0), (3, 5)),
    }]);
    let loc = goto_definition(&goto).unwrap().unwrap();
    assert_eq!(loc, "/src/a.rs:4");
    let p = plumb_location(&loc);
    assert_eq!(p.path, "/src/a.rs");
    assert_eq!(p.message.dst, "edit");
    assert_eq!(p.message.typ, "text");
    assert_eq!(p.message.data, b"/src/a.rs:4".to_vec());
    assert_eq!(goto_definition(&GotoResponse::Array(vec![])), Ok(None));
    assert_eq!(goto_definition(&GotoResponse::Scalar), Err(Error::Unsupported));
    assert_eq!(goto_definition(&GotoResponse::Link), Err(Error::Unsupported));
}

#[test]
fn clicks_find_their_target() {
    let mut s = with_windows();
    s.addr = vec![(128, 7), (170, 3), (200, 0)];
    assert_eq!(s.resolve_click(128), Click::Window(7));
    assert_eq!(s.resolve_click(169), Click::Window(7));
    assert_eq!(s.resolve_click(170), Click::Window(3));
    assert_eq!(s.resolve_click(200), Click::Plumb);
    assert_eq!(s.resolve_click(5), Click::Plumb);
    s.focus_requests(7, pos(0, 0), "".to_string());
    s.set_hover(
        "file:///src/a.rs",
        HoverUpdate::CodeActions(vec![
            CodeActionOrCommand::Command { title: "A".to_string(), edits: vec![] },
            CodeActionOrCommand::CodeAction {
                title: "B".to_string(),
                edit: None,
                raw: "{\"title\":\"B\"}".to_string(),
            },
        ]),
    );
    assert_eq!(s.current_hover.as_ref().unwrap().body, "[A]\n[B]");
    assert_eq!(s.resolve_click(0), Click::Action(0));
    assert_eq!(s.resolve_click(2), Click::Action(0));
    assert_eq!(s.resolve_click(3), Click::Action(1));
    assert_eq!(s.resolve_click(6), Click::Action(1));
    assert_eq!(s.resolve_click(7), Click::Plumb);
    let (ev, _) = get_event(b"ML4 5 0 1 B\n").unwrap();
    match s.run_cmd(&ev) {
        CmdOutcome::Action { client, url, path, action } => {
            assert_eq!((client.as_str(), url.as_str(), path.as_str()), ("rls", "file:///src/a.rs", "/src/a.rs"));
            assert!(matches!(action, Action::Command(CodeActionOrCommand::CodeAction { .. })));
            let o = s.run_action(&client, &url, &path, action);
            assert_eq!(o.error, None);
            assert_eq!(
                o.effects,
                vec![Effect::Send(Outgoing::Request {
                    client: "rls".to_string(),
                    id: 8,
                    method: Method::CodeActionResolve,
                    url: "file:///src/a.rs".to_string(),
                    params: Params::Raw("{\"title\":\"B\"}".to_string()),
                })]
            );
        }
        other => panic!("{:?}", other),
    }
    assert!(s.current_hover.as_ref().unwrap().code_actions.is_empty());
    let (ev, _) = get_event(b"ML900 905 0 9 /a/b.rs:3\n").unwrap();
    assert_eq!(s.run_cmd(&ev), CmdOutcome::Plumb("/a/b.rs:3".to_string()));
}

#[test]
fn commands_of_the_control_window() {
    let mut s = with_windows();
    s.output = "x".to_string();
    s.publish_diagnostics("/a", &vec![]);
    s.focus_requests(7, pos(0, 0), "".to_string());
    let (get, _) = get_event(b"Mx0 0 0 3 Get\n").unwrap();
    assert_eq!(route_event(&get), EventRoute::Forward);
    assert_eq!(s.run_cmd(&get), CmdOutcome::Refresh);
    assert_eq!(s.output, "");
    assert!(s.diags.entries.is_empty());
    assert!(s.current_hover.is_none());
    let (del, _) = get_event(b"MX0 0 0 3 Del\n").unwrap();
    assert_eq!(route_event(&del), EventRoute::Stop);
    assert_eq!(s.run_cmd(&del), CmdOutcome::Unexpected);
    let (put, _) = get_event(b"Mx0 0 0 3 Put\n").unwrap();
    assert_eq!(route_event(&put), EventRoute::WriteBack);
    let (ins, _) = get_event(b"KI0 1 0 1 a\n").unwrap();
    assert_eq!(route_event(&ins), EventRoute::Ignore);
    assert_eq!(s.run_cmd(&ins), CmdOutcome::Nothing);
    assert_eq!(log_action("focus"), Some(LogAction::Focus));
    assert_eq!(log_action("put"), Some(LogAction::Put));
    assert_eq!(log_action("new"), Some(LogAction::Windows));
    assert_eq!(log_action("del"), Some(LogAction::Windows));
    assert_eq!(log_action("get"), None);
    assert!(wants_sync(Wake::Lsp, false));
    assert!(wants_sync(Wake::Event, false));
    assert!(wants_sync(Wake::Log(LogAction::Focus), false));
    assert!(!wants_sync(Wake::Log(LogAction::Put), false));
    assert!(!wants_sync(Wake::Sync, false));
    assert!(!wants_sync(Wake::Lsp, true));
    assert_eq!(request_for("references"), Some(Method::References));
    assert_eq!(request_for("symbols"), Some(Method::DocumentSymbol));
    assert_eq!(request_for("impl"), Some(Method::GotoImplementation));
    assert_eq!(request_for("typedef"), Some(Method::GotoTypeDefinition));
    assert_eq!(request_for("Definition"), None);
    assert_eq!(
        s.run_event("symbols", 3, pos(1, 1)),
        Some(Outgoing::Request {
            client: "rls".to_string(),
            id: 8,
            method: Method::DocumentSymbol,
            url: "file:///x.rs".to_string(),
            params: Params::Document,
        })
    );
    assert_eq!(s.run_event("other", 3, pos(1, 1)), None);
    assert_eq!(s.run_event("symbols", 33, pos(1, 1)), None);
}

#[test]
fn format_on_put() {
    let mut s = with_windows();
    let out = s.cmd_put(3);
    assert_eq!(
        out,
        vec![
            Outgoing::DidSave { client: "rls".to_string(), url: "file:///x.rs".to_string() },
            Outgoing::Request {
                client: "rls".to_string(),
                id: 2,
                method: Method::Formatting,
                url: "file:///x.rs".to_string(),
                params: Params::Document,
            },
        ]
    );
    assert!(s.cmd_put(99).is_empty());
    let body = "fn main() {\nlet x = 1;\n}\n";
    let new = "fn main() {\n    let x = 1;\n}\n";
    let whole = TextEdit { range: range((0, 0), (3, 0)), new_text: new.to_string() };
    let (id, ops) =
        s.apply_text_edits("/x.rs", body, InsertTextFormat::PlainText, &vec![whole]).unwrap().unwrap();
    assert_eq!(id, 3);
    assert_eq!(
        ops,
        vec![
            WinOp::Write { file: File::Addr, data: "2,2".to_string() },
            WinOp::Write { file: File::Data, data: "".to_string() },
            WinOp::Write { file: File::Addr, data: "1+#0".to_string() },
            WinOp::Write { file: File::Data, data: "    let x = 1;\n".to_string() },
        ]
    );
    s.config.entries[0].1.format_on_put = Some(false);
    assert_eq!(s.cmd_put(3).len(), 1);
    s.config.entries[0].1.format_on_put = Some(true);
    assert_eq!(s.cmd_put(3).len(), 2);
    assert!(s.put_actions("rls", "file:///x.rs", "/x.rs").is_none());
    s.config.entries[0].1.actions_on_put = Some(vec!["source.organizeImports".to_string()]);
    let m = s.put_actions("rls", "file:///x.rs", "/x.rs").unwrap();
    assert_eq!(
        m,
        Outgoing::Request {
            client: "rls".to_string(),
            id: 4,
            method: Method::CodeAction,
            url: "file:///x.rs".to_string(),
            params: Params::CodeAction {
                range: range((0, 0), (0, 0)),
                only: Some(vec!["source.organizeImports".to_string()]),
            },
        }
    );
    assert!(s.autorun.contains(&4));
    assert_eq!(s.autorun.len(), 1);
    let items = vec![CodeActionOrCommand::Command { title: "t".to_string(), edits: vec![] }];
    let run = s.on_code_action(&ClientId::new("rls".to_string(), 4), "file:///x.rs", items);
    assert_eq!(run.map(|v| v.len()), Some(1));
    assert!(s.autorun.is_empty());
    let kept = s.on_code_action(&ClientId::new("rls".to_string(), 4), "file:///x.rs", vec![]);
    assert!(kept.is_none());
}

#[test]
fn edits_are_planned() {
    let body = "abc\ndéf\nghi";
    let e = |r: Range, t: &str| TextEdit { range: r, new_text: t.to_string() };
    assert!(plan_text_edits(body, InsertTextFormat::PlainText, &vec![]).is_empty());
    assert!(plan_text_edits(body, InsertTextFormat::PlainText, &vec![e(range((0, 0), (0, 1)), body)])
        .is_empty());
    let ops = plan_text_edits(
        body,
        InsertTextFormat::PlainText,
        &vec![e(range((0, 1), (0, 2)), "X"), e(range((1, 0), (2, 1)), "Y"), e(range((9, 0), (9, 9)), "Z")],
    );
    let w = |file, data: &str| WinOp::Write { file, data: data.to_string() };
    assert_eq!(
        ops,
        vec![
            WinOp::Seek { file: File::Body, pos: 0 },
            w(File::Ctl, "nomark\n"),
            w(File::Ctl, "mark\n"),
            w(File::Addr, "#11,#11"),
            w(File::Data, "Z"),
            w(File::Addr, "#4,#9"),
            w(File::Data, "Y"),
            w(File::Addr, "#1,#2"),
            w(File::Data, "X"),
        ]
    );
    let ops = plan_text_edits(
        body,
        InsertTextFormat::Snippet,
        &vec![e(range((0, 0), (0, 0)), "f(${1:arg}, ${2:x})$0 $1")],
    );
    assert_eq!(ops[4], w(File::Data, "f(, ) $1"));
    let ops = plan_text_edits(
        body,
        InsertTextFormat::PlainText,
        &vec![e(range((0, 0), (0, 0)), "f(${1:arg})$0")],
    );
    assert_eq!(ops[4], w(File::Data, "f(${1:arg})$0"));
    let ops = plan_text_edits(
        body,
        InsertTextFormat::PlainText,
        &vec![e(range((0, 0), (2, 3)), "abc\nghi\nnew")],
    );
    assert_eq!(
        ops,
        vec![w(File::Addr, "2,2"), w(File::Data, ""), w(File::Addr, "2+#0"), w(File::Data, "new\n")]
    );
}

#[test]
fn diffs_become_line_writes() {
    let d = vec![
        LineDiff::Right("first".to_string()),
        LineDiff::Both("a".to_string(), "a".to_string()),
        LineDiff::Left("b".to_string()),
        LineDiff::Left("c".to_string()),
        LineDiff::Right("d".to_string()),
    ];
    let w = |file, data: &str| WinOp::Write { file, data: data.to_string() };
    assert_eq!(
        diff_writes(&d),
        vec![
            w(File::Addr, "0+#0"),
            w(File::Data, "first\n"),
            w(File::Addr, "3,3"),
            w(File::Data, ""),
            w(File::Addr, "3,3"),
            w(File::Data, ""),
            w(File::Addr, "2+#0"),
            w(File::Data, "d\n"),
        ]
    );
    assert!(diff_writes(&vec![]).is_empty());
}

#[test]
fn workspace_edits_go_document_by_document() {
    let e = |t: &str| TextEdit { range: range((0, 0), (0, 0)), new_text: t.to_string() };
    let edit = WorkspaceEdit {
        document_changes: Some(DocumentChanges::Edits(vec![TextDocumentEdit {
            uri: "file:///a.rs".to_string(),
            path: "/a.rs".to_string(),
            edits: vec![Some(e("1")), None, Some(e("2"))],
        }])),
        changes: Some(vec![UrlEdits {
            uri: "file:///b.rs".to_string(),
            path: "/b.rs".to_string(),
            edits: vec![e("3")],
        }]),
    };
    let docs = apply_workspace_edit(&edit).unwrap();
    assert_eq!(
        docs,
        vec![
            DocEdits { path: "/a.rs".to_string(), format: InsertTextFormat::PlainText, edits: vec![e("1"), e("2")] },
            DocEdits { path: "/b.rs".to_string(), format: InsertTextFormat::PlainText, edits: vec![e("3")] },
        ]
    );
    let ops = WorkspaceEdit { document_changes: Some(DocumentChanges::Operations), changes: None };
    assert_eq!(apply_workspace_edit(&ops).unwrap_err(), Error::Unsupported);
    let none = WorkspaceEdit { document_changes: None, changes: None };
    assert!(apply_workspace_edit(&none).unwrap().is_empty());
    let o = run_edits(&vec![edit, ops, none]);
    assert_eq!(o.effects.len(), 2);
    assert_eq!(o.error, Some(Error::Unsupported));
}

#[test]
fn actions_run() {
    let mut s = with_windows();
    let e = TextEdit { range: range((1, 0), (1, 2)), new_text: "xy".to_string() };
    let item = |text_edit| CompletionItem {
        label: "l".to_string(),
        filter_text: None,
        deprecated: None,
        kind: None,
        detail: None,
        insert_text_format: Some(InsertTextFormat::Snippet),
        text_edit,
    };
    let o = s.run_action(
        "rls",
        "file:///x.rs",
        "/x.rs",
        Action::Completion(item(Some(CompletionTextEdit::Edit(TextEdit {
            range: e.range,
            new_text: "xy".to_string(),
        })))),
    );
    assert_eq!(
        o.effects,
        vec![Effect::Edit(DocEdits {
            path: "/x.rs".to_string(),
            format: InsertTextFormat::Snippet,
            edits: vec![e],
        })]
    );
    assert_eq!(o.error, None);
    let o = s.run_action("rls", "u", "p", Action::Completion(item(Some(CompletionTextEdit::InsertAndReplace))));
    assert!(o.effects.is_empty() && o.error.is_none());
    let o = s.run_action("rls", "u", "p", Action::Completion(item(None)));
    assert_eq!(o.error, Some(Error::Unsupported));
    let o = s.run_action("rls", "file:///x.rs", "/x.rs", Action::CodeLens(CodeLens { raw: "L".to_string() }));
    assert_eq!(
        o.effects,
        vec![Effect::Send(Outgoing::Request {
            client: "rls".to_string(),
            id: 2,
            method: Method::CodeLensResolve,
            url: "file:///x.rs".to_string(),
            params: Params::Raw("L".to_string()),
        })]
    );
    let with_edit = CodeActionOrCommand::CodeAction {
        title: "t".to_string(),
        edit: Some(WorkspaceEdit {
            document_changes: None,
            changes: Some(vec![UrlEdits { uri: "u".to_string(), path: "/p".to_string(), edits: vec![] }]),
        }),
        raw: "".to_string(),
    };
    let o = s.run_action("rls", "u", "p", Action::Command(with_edit));
    assert_eq!(
        o.effects,
        vec![Effect::Edit(DocEdits { path: "/p".to_string(), format: InsertTextFormat::PlainText, edits: vec![] })]
    );
    assert_eq!(s.apply_text_edits("/nope", "", InsertTextFormat::PlainText, &vec![]), Ok(None));
    let one = vec![TextEdit { range: range((0, 0), (0, 0)), new_text: "q".to_string() }];
    assert_eq!(
        s.apply_text_edits("/nope", "", InsertTextFormat::PlainText, &one),
        Err(Error::NoSuchFile)
    );
}

#[test]
fn outputs_of_responses() {
    let l = |path: &str, line: u32| Location {
        uri: format!("file://{}", path),
        path: path.to_string(),
        range: range((line, 0), (line, 1)),
    };
    assert_eq!(location_to_plumb(&l("/a.rs", 0)), "/a.rs:1");
    assert_eq!(
        references_output(vec![l("/b.rs", 4), l("/a.rs", 9), l("/a.rs", 2)]),
        Some("/a.rs:3\n/a.rs:10\n/b.rs:5".to_string())
    );
    assert_eq!(references_output(vec![]), None);
    assert_eq!(
        hover_text(&HoverContents::Array(vec![" a".to_string(), "b ".to_string()])),
        Ok("a\nb".to_string())
    );
    assert_eq!(hover_text(&HoverContents::Markup("\n m \n".to_string())), Ok("m".to_string()));
    assert_eq!(message_output("Error", "boom"), "[Error] boom");
    let help = SignatureHelp {
        signatures: vec![
            Signature { label: "f()".to_string(), documentation: None },
            Signature {
                label: "g(x)".to_string(),
                documentation: Some(Documentation::MarkupContent("doc".to_string())),
            },
        ],
        active_signature: Some(1),
    };
    assert_eq!(signature_text(&help), Ok("g(x)\ndoc".to_string()));
    let first = SignatureHelp { active_signature: None, ..help };
    assert_eq!(signature_text(&first), Ok("f()".to_string()));
    let none = SignatureHelp { signatures: vec![], active_signature: Some(0) };
    assert_eq!(signature_text(&none), Err(Error::ExpectedSignature));
    let si = |name: &str, var: bool, container: Option<&str>| SymbolInformation {
        name: name.to_string(),
        kind: if var { "Variable".to_string() } else { "Function".to_string() },
        is_variable: var,
        container_name: container.map(|c| c.to_string()),
        location: l("/a.rs", 1),
    };
    assert_eq!(
        flat_symbols_output(&vec![
            si("f", false, None),
            si("v", true, None),
            si("w", true, Some("")),
            si("x", true, Some("f")),
            si("m", false, Some("T")),
        ]),
        Some("f (Function): /a.rs:2\nf::x (Variable): /a.rs:2\nT::m (Function): /a.rs:2".to_string())
    );
    assert_eq!(flat_symbols_output(&vec![si("v", true, None)]), None);
    let ds: Vec<Diagnostic> = (0..7)
        .map(|i| Diagnostic {
            message: format!("m{}\nmore", i),
            line: i,
            severity: if i == 0 { Some("Warning".to_string()) } else { None },
        })
        .collect();
    let out = diagnostics_output("/a.rs", &ds);
    assert_eq!(out.len(), 5);
    assert_eq!(out[0], "/a.rs:1: [Warning] m0");
    assert_eq!(out[4], "/a.rs:5: [Error] m4");
    let empty = Diagnostic { message: "".to_string(), line: 0, severity: None };
    assert_eq!(diagnostics_output("/a.rs", &vec![empty]), vec!["/a.rs:1: [Error] "]);
}

#[test]
fn positions_and_lines_of_a_window() {
    let body = "abc\ndéf\nghi";
    let n = acre::acme::NlOffsets::of_text(body);
    assert_eq!(ServerWin::position(&n, 5), pos(1, 1));
    assert_eq!(ServerWin::position(&n, 0), pos(0, 0));
    assert_eq!(ServerWin::line(body, 5), Ok("déf".to_string()));
    assert_eq!(ServerWin::line(body, 11), Ok("ghi".to_string()));
    assert_eq!(ServerWin::line("a\n", 2), Err(Error::NoSuchLine));
    assert_eq!(ServerWin::line("", 0), Err(Error::NoSuchLine));
}

#[test]
fn outline_is_nested_and_ordered() {
    let sym = |name: &str, kind: &str, line: u32, children: Vec<DocumentSymbol>| DocumentSymbol {
        name: name.to_string(),
        kind: kind.to_string(),
        range: range((line, 0), (line, 1)),
        children,
    };
    let dss = vec![
        sym("z", "Function", 9, vec![]),
        sym(
            "T",
            "Struct",
            2,
            vec![sym("b", "Field", 4, vec![]), sym("a", "Field", 3, vec![sym("x", "Variable", 3, vec![])])],
        ),
        sym("y", "Function", 9, vec![]),
    ];
    let mut out = vec!["first".to_string()];
    nested_symbols("/a.rs", "", &dss, &mut out);
    assert_eq!(
        out,
        vec![
            "first",
            "T (Struct): /a.rs:3",
            "T::a (Field): /a.rs:4",
            "T::a::x (Variable): /a.rs:4",
            "T::b (Field): /a.rs:5",
            "z (Function): /a.rs:10",
            "y (Function): /a.rs:10",
        ]
    );
    let mut s = server();
    s.output = "keep".to_string();
    s.on_outline("/a.rs", &vec![]);
    assert_eq!(s.output, "keep");
    s.on_outline("/a.rs", &dss);
    assert!(s.output.starts_with("T (Struct): /a.rs:3\nT::a (Field)"));
    s.on_symbols(&vec![]);
    assert!(s.output.starts_with("T (Struct)"));
    s.on_references(vec![]);
    assert!(s.output.starts_with("T (Struct)"));
    s.show_message("Info", "hello");
    assert_eq!(s.output, "[Info] hello");
}

#[test]
fn notices_and_signature_help() {
    assert_eq!(notice_for("window/logMessage"), Some(Notice::LogMessage));
    assert_eq!(notice_for("window/showMessage"), Some(Notice::ShowMessage));
    assert_eq!(notice_for("textDocument/publishDiagnostics"), Some(Notice::PublishDiagnostics));
    assert_eq!(notice_for("$/progress"), Some(Notice::Progress));
    assert_eq!(notice_for("window/other"), None);
    let mut s = with_windows();
    s.focus_requests(7, pos(0, 0), "".to_string());
    let help = SignatureHelp {
        signatures: vec![Signature {
            label: "f(a)".to_string(),
            documentation: Some(Documentation::String("does f".to_string())),
        }],
        active_signature: None,
    };
    s.on_signature_help("file:///src/a.rs", &help).unwrap();
    assert_eq!(s.current_hover.as_ref().unwrap().signature, Some("f(a)\ndoes f".to_string()));
    assert_eq!(s.current_hover.as_ref().unwrap().body, "f(a)\ndoes f\n");
    let none = SignatureHelp { signatures: vec![], active_signature: None };
    assert_eq!(s.on_signature_help("file:///src/a.rs", &none), Err(Error::ExpectedSignature));
}

#[test]
fn diagnostics_replace_those_of_the_file() {
    let mut s = server();
    let d = |m: &str| Diagnostic { message: m.to_string(), line: 0, severity: None };
    s.publish_diagnostics("/a", &vec![d("one")]);
    s.publish_diagnostics("/b", &vec![d("two")]);
    s.publish_diagnostics("/a", &vec![d("three"), d("four")]);
    assert_eq!(s.diags.entries.len(), 2);
    assert_eq!(s.diags.entries[0].0, "/a");
    assert_eq!(s.diags.entries[0].1, vec!["/a:1: [Error] three", "/a:1: [Error] four"]);
    assert_eq!(s.diags.entries[1].1, vec!["/b:1: [Error] two"]);
}

#[test]
fn new_windows_need_an_address() {
    let mut s = with_windows();
    let names_before = s.names.clone();
    let r = s.sync_windows(vec![win(7, "/src/a.rs"), win(11, "a b.rs")]);
    assert_eq!(r, Err(Error::BadUrl));
    assert_eq!(s.names, names_before);
    assert_eq!(s.ws.len(), 2);
    let ok = s.sync_windows(vec![win(11, "a b.txt")]).unwrap();
    assert_eq!(ok.close.len(), 2);
}

#[test]
fn ranges_are_written_last_edit_first() {
    let n = acre::acme::NlOffsets::of_text("one\ntwo\n");
    let e = |r: Range, t: &str| TextEdit { range: r, new_text: t.to_string() };
    let edits = vec![e(range((0, 0), (0, 3)), "1"), e(range((1, 1), (1, 2)), "W")];
    let texts = vec!["first".to_string(), "second".to_string()];
    let w = |file, data: &str| WinOp::Write { file, data: data.to_string() };
    assert_eq!(
        range_writes(&n, &edits, &texts),
        vec![
            WinOp::Seek { file: File::Body, pos: 0 },
            w(File::Ctl, "nomark\n"),
            w(File::Ctl, "mark\n"),
            w(File::Addr, "#5,#6"),
            w(File::Data, "second"),
            w(File::Addr, "#0,#3"),
            w(File::Data, "first"),
        ]
    );
    assert_eq!(edit_texts(InsertTextFormat::PlainText, &edits), vec!["1", "W"]);
    let snippets = vec![e(range((0, 0), (0, 0)), "a${12:bc}d$0"), e(range((0, 0), (0, 0)), "${x:y}")];
    assert_eq!(edit_texts(InsertTextFormat::Snippet, &snippets), vec!["ad", "${x:y}"]);
}

#[test]
fn candidates_are_taken_up() {
    let mut s = server();
    let c = |id: usize, name: &str, client: Option<&str>, url: Option<(&str, &str)>| Candidate {
        id,
        name: name.to_string(),
        client: client.map(|x| x.to_string()),
        url: url.map(|(a, b)| (a.to_string(), b.to_string())),
    };
    let cs = s.candidates(vec![win(2, "/b.rs"), win(1, "/a.rs"), win(3, "/c.txt")]);
    assert_eq!(
        cs,
        vec![
            c(1, "/a.rs", Some("rls"), Some(("file:///a.rs", "/a.rs"))),
            c(2, "/b.rs", Some("rls"), Some(("file:///b.rs", "/b.rs"))),
            c(3, "/c.txt", None, Some(("file:///c.txt", "/c.txt"))),
        ]
    );
    let plan = s
        .track(&vec![
            c(5, "x", Some("one"), Some(("u1", "p1"))),
            c(6, "y", None, None),
            c(7, "z", Some("two"), Some(("u1", "p1"))),
        ])
        .unwrap();
    assert_eq!(plan.open, vec![5]);
    assert_eq!(s.names, vec![("x".to_string(), 5), ("z".to_string(), 7)]);
    assert_eq!(s.ws.get(&7).unwrap().client, "two");
    assert_eq!(s.files.entries, vec![("x".to_string(), "one".to_string()), ("z".to_string(), "two".to_string())]);
    let plan = s.track(&vec![c(7, "z", Some("two"), None)]).unwrap();
    assert_eq!(plan.close, vec![Outgoing::DidClose { client: "one".to_string(), url: "u1".to_string() }]);
    assert!(s.opened_urls.entries.is_empty());
    assert_eq!(s.track(&vec![c(8, "q", Some("two"), None)]), Err(Error::BadUrl));
    assert_eq!(s.ws.len(), 1);
}
