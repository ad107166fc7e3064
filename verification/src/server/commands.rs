//! What the coordinator does on the events of the editor: clicks in the
//! control window, focus, and saving.
use vstd::prelude::*;

use crate::acme::Event;
use crate::hover::{HoverData, WindowHover};
use crate::lsp::Client;
use crate::model::{Method, Position, Range};
use crate::server::{Outgoing, Params, RequestView, Server, ServerWin, request_views};
use crate::server::edits::DocEdits;
use crate::table::{lemma_position, position};
use crate::text::str_eq;

verus! {

broadcast use vstd::std_specs::hash::group_hash_axioms;

/// Something for the caller to do.
#[derive(Debug, PartialEq, Eq)]
pub enum Effect {
    /// Send the message to its server.
    Send(Outgoing),
    /// Show the location.
    Plumb(String),
    /// Make the edits in the window of the document.
    Edit(DocEdits),
    /// Go through the editor's windows anew.
    SyncWindows,
}

/// The request that a word in a window's row stands for.
pub open spec fn spec_request_for(word: Seq<char>) -> Option<Method> {
    if word == "definition"@ {
        Some(Method::GotoDefinition)
    } else if word == "references"@ {
        Some(Method::References)
    } else if word == "symbols"@ {
        Some(Method::DocumentSymbol)
    } else if word == "impl"@ {
        Some(Method::GotoImplementation)
    } else if word == "typedef"@ {
        Some(Method::GotoTypeDefinition)
    } else {
        None
    }
}

/// The request that a word in a window's row stands for.
pub fn request_for(word: &str) -> (m: Option<Method>)
    ensures
        m == spec_request_for(word@),
{
    if str_eq(word, "definition") {
        Some(Method::GotoDefinition)
    } else if str_eq(word, "references") {
        Some(Method::References)
    } else if str_eq(word, "symbols") {
        Some(Method::DocumentSymbol)
    } else if str_eq(word, "impl") {
        Some(Method::GotoImplementation)
    } else if str_eq(word, "typedef") {
        Some(Method::GotoTypeDefinition)
    } else {
        None
    }
}

/// What a request of `method` carries besides the document, with the cursor
/// at `position`: nothing where the request is about the whole document, the
/// empty range at the cursor where it is about a range, and else the
/// position.
pub open spec fn request_params(method: Method, position: Position) -> Params {
    match method {
        Method::DocumentSymbol | Method::CodeLens | Method::Formatting | Method::Initialize
        | Method::CodeActionResolve | Method::CodeLensResolve => Params::Document,
        Method::CodeAction => Params::CodeAction {
            range: Range { start: position, end: position },
            only: None,
        },
        Method::SemanticTokensRange => Params::Range(Range { start: position, end: position }),
        _ => Params::Position(position),
    }
}

/// What a request of `method` carries besides the document.
pub fn params_of(method: Method, position: Position) -> (p: Params)
    ensures
        p == request_params(method, position),
{
    match method {
        Method::DocumentSymbol | Method::CodeLens | Method::Formatting | Method::Initialize
        | Method::CodeActionResolve | Method::CodeLensResolve => Params::Document,
        Method::CodeAction => Params::CodeAction {
            range: Range { start: position, end: position },
            only: None,
        },
        Method::SemanticTokensRange => Params::Range(Range { start: position, end: position }),
        _ => Params::Position(position),
    }
}

/// The requests that fill the record of the focused window, in the order in
/// which they are made.
pub open spec fn focus_methods() -> Seq<Method> {
    seq![
        Method::Hover,
        Method::CodeAction,
        Method::Completion,
        Method::SemanticTokensRange,
        Method::SignatureHelp,
        Method::CodeLens,
    ]
}

/// Whether `n` requests can be registered for the window `wid`: the window
/// is tracked, its server is known, and the server has `n` ids left.
pub open spec fn can_ask(s: Server, wid: usize, n: nat) -> bool {
    &&& s.ws@.contains_key(wid)
    &&& s.clients.has(s.ws@[wid].client@)
    &&& s.clients.value(s.ws@[wid].client@).next_id + n <= usize::MAX
}

/// The open requests that asking `methods` for the window `w` adds, with ids
/// from `id0` on.
pub open spec fn asked_requests(w: ServerWin, id0: usize, methods: Seq<Method>) -> Seq<RequestView> {
    Seq::new(
        methods.len(),
        |k: int|
            RequestView {
                client: w.client@,
                id: (id0 + k) as usize,
                method: methods[k],
                url: w.url@,
                path: w.path@,
            },
    )
}

/// The messages that ask `methods` for the window `w`, with ids from `id0`
/// on and the cursor at `position`.
pub open spec fn asked_messages(
    w: ServerWin,
    id0: usize,
    methods: Seq<Method>,
    position: Position,
) -> Seq<Outgoing> {
    Seq::new(
        methods.len(),
        |k: int|
            Outgoing::Request {
                client: w.client,
                id: (id0 + k) as usize,
                method: methods[k],
                url: w.url,
                params: request_params(methods[k], position),
            },
    )
}

/// Whether `after` and `out` are what asking `methods` for the window `wid`
/// makes of `before`: the requests are open, with the next ids of the
/// window's server, and `out` holds the messages that make them.
pub open spec fn asked(
    before: Server,
    after: Server,
    wid: usize,
    methods: Seq<Method>,
    position: Position,
    out: Seq<Outgoing>,
) -> bool {
    let w = before.ws@[wid];
    let i = position_of_client(before, w.client@);
    let c = before.clients.entries@[i];
    &&& out == asked_messages(w, c.1.next_id, methods, position)
    &&& request_views(after.requests.entries@) == request_views(before.requests.entries@)
        + asked_requests(w, c.1.next_id, methods)
    &&& after.clients.entries@ == before.clients.entries@.update(
        i,
        (c.0, Client { next_id: (c.1.next_id + methods.len()) as usize, ..c.1 }),
    )
    &&& crate::server::same_but_requests_clients_hover(after, before)
}

/// The index of the server `name` among the servers.
pub open spec fn position_of_client(s: Server, name: Seq<char>) -> int {
    position(s.clients.entries@, name)
}

/// The index of the last of the first `k` entries of `addrs` whose offset
/// is at most `q0`.
pub open spec fn last_at<T>(addrs: Seq<(usize, T)>, q0: int, k: nat) -> Option<int>
    decreases k,
{
    if k == 0 {
        None
    } else if addrs[k - 1].0 <= q0 {
        Some(k - 1)
    } else {
        last_at(addrs, q0, (k - 1) as nat)
    }
}

pub proof fn lemma_last_at<T>(addrs: Seq<(usize, T)>, q0: int, k: nat)
    requires
        k <= addrs.len(),
    ensures
        match last_at(addrs, q0, k) {
            Some(i) => 0 <= i < k && addrs[i].0 <= q0 && forall|j: int|
                i < j < k ==> (#[trigger] addrs[j]).0 > q0,
            None => forall|j: int| 0 <= j < k ==> (#[trigger] addrs[j]).0 > q0,
        },
    decreases k,
{
    if k > 0 && addrs[k - 1].0 > q0 {
        lemma_last_at(addrs, q0, (k - 1) as nat);
    }
}

/// The index of the last entry of `addrs` whose offset is at most `q0`.
pub fn find_last_at<T>(addrs: &Vec<(usize, T)>, q0: u32) -> (r: Option<usize>)
    ensures
        match r {
            Some(i) => last_at(addrs@, q0 as int, addrs@.len()) == Some(i as int) && i
                < addrs@.len(),
            None => last_at(addrs@, q0 as int, addrs@.len()) is None,
        },
{
    let mut k: usize = addrs.len();
    while k > 0
        invariant
            k <= addrs.len(),
            last_at(addrs@, q0 as int, addrs@.len()) == last_at(addrs@, q0 as int, k as nat),
        decreases k,
    {
        if addrs[k - 1].0 as u64 <= q0 as u64 {
            return Some(k - 1);
        }
        k -= 1;
    }
    None
}

/// What a click in the control window hits.
#[derive(Clone, Copy, Debug, PartialEq, Eq, Structural)]
pub enum Click {
    /// The row of the window with this id.
    Window(usize),
    /// The action with this index among those on offer.
    Action(usize),
    /// Neither: the text clicked on names a location.
    Plumb,
}

/// What a click at offset `q0` hits: the window whose row starts last at or
/// before the offset; failing that, the action that starts last at or before
/// it; failing that, nothing.
pub open spec fn spec_click(s: Server, q0: u32) -> Click {
    let a = last_at(s.addr@, q0 as int, s.addr@.len());
    if a is Some && s.addr@[a->0].1 != 0 {
        Click::Window(s.addr@[a->0].1)
    } else {
        match s.current_hover {
            Some(h) => {
                let b = last_at(h.action_addrs@, q0 as int, h.action_addrs@.len());
                if b is Some && h.action_addrs@[b->0].1 is Some && h.action_addrs@[b->0].1->0
                    < h.actions@.len() {
                    Click::Action(h.action_addrs@[b->0].1->0)
                } else {
                    Click::Plumb
                }
            },
            None => Click::Plumb,
        }
    }
}

/// What to do with an event of the control window before the coordinator
/// sees it.
#[derive(Clone, Copy, Debug, PartialEq, Eq, Structural)]
pub enum EventRoute {
    /// The window is being deleted: stop reading events.
    Stop,
    /// Hand the event to the coordinator.
    Forward,
    /// Give the event back to the editor.
    WriteBack,
    /// Drop the event.
    Ignore,
}

/// What to do with an event of the control window: of the commands `Del`
/// ends the reading, `Get` goes to the coordinator and all others go back to
/// the editor; looks go to the coordinator; the rest is dropped.
pub open spec fn spec_route_event(c2: char, text: Seq<char>) -> EventRoute {
    if c2 == 'x' || c2 == 'X' {
        if text == "Del"@ {
            EventRoute::Stop
        } else if text == "Get"@ {
            EventRoute::Forward
        } else {
            EventRoute::WriteBack
        }
    } else if c2 == 'L' {
        EventRoute::Forward
    } else {
        EventRoute::Ignore
    }
}

/// What to do with an event of the control window.
pub fn route_event(ev: &Event) -> (r: EventRoute)
    ensures
        r == spec_route_event(ev.c2, ev.text@),
{
    if ev.c2 == 'x' || ev.c2 == 'X' {
        if str_eq(ev.text.as_str(), "Del") {
            EventRoute::Stop
        } else if str_eq(ev.text.as_str(), "Get") {
            EventRoute::Forward
        } else {
            EventRoute::WriteBack
        }
    } else if ev.c2 == 'L' {
        EventRoute::Forward
    } else {
        EventRoute::Ignore
    }
}

/// What the coordinator does on a record of the editor's log.
#[derive(Clone, Copy, Debug, PartialEq, Eq, Structural)]
pub enum LogAction {
    Focus,
    Put,
    Windows,
}

/// What the coordinator does on a record of the log with the operation
/// `op`; `None` for operations that are not for it.
pub open spec fn spec_log_action(op: Seq<char>) -> Option<LogAction> {
    if op == "focus"@ {
        Some(LogAction::Focus)
    } else if op == "put"@ {
        Some(LogAction::Put)
    } else if op == "new"@ || op == "del"@ {
        Some(LogAction::Windows)
    } else {
        None
    }
}

/// What the coordinator does on a record of the log with the operation
/// `op`.
pub fn log_action(op: &str) -> (r: Option<LogAction>)
    ensures
        r == spec_log_action(op@),
{
    if str_eq(op, "focus") {
        Some(LogAction::Focus)
    } else if str_eq(op, "put") {
        Some(LogAction::Put)
    } else if str_eq(op, "new") || str_eq(op, "del") {
        Some(LogAction::Windows)
    } else {
        None
    }
}

/// What wakes the coordinator.
#[derive(Clone, Copy, Debug, PartialEq, Eq, Structural)]
pub enum Wake {
    /// A record of the log, with what is done on it.
    Log(LogAction),
    /// An event of the control window.
    Event,
    /// A request to write the control window.
    Sync,
    /// A message of a server.
    Lsp,
}

/// Whether the control window is to be written after the coordinator has
/// dealt with `wake`: not after a save and not after it has just been
/// written, and only where no request to write it waits already.
pub open spec fn spec_wants_sync(wake: Wake, sync_waiting: bool) -> bool {
    wake != Wake::Log(LogAction::Put) && wake != Wake::Sync && !sync_waiting
}

/// Whether the control window is to be written after `wake`.
pub fn wants_sync(wake: Wake, sync_waiting: bool) -> (r: bool)
    ensures
        r == spec_wants_sync(wake, sync_waiting),
{
    let no_sync = match wake {
        Wake::Log(LogAction::Put) => true,
        Wake::Sync => true,
        _ => false,
    };
    !no_sync && !sync_waiting
}

impl Server {
    /// What a click at offset `q0` of the control window hits.
    pub fn resolve_click(&self, q0: u32) -> (c: Click)
        ensures
            c == spec_click(*self, q0),
    {
        if let Some(i) = find_last_at(&self.addr, q0) {
            if self.addr[i].1 != 0 {
                return Click::Window(self.addr[i].1);
            }
        }
        if let Some(h) = &self.current_hover {
            if let Some(i) = find_last_at(&h.action_addrs, q0) {
                if let Some(idx) = h.action_addrs[i].1 {
                    if idx < h.actions.len() {
                        return Click::Action(idx);
                    }
                }
            }
        }
        Click::Plumb
    }

    /// Registers a request of `method` for the window `wid`, with the cursor
    /// at `position`, and returns the message that makes it. `None`, and
    /// nothing changed, where the window is not tracked or no request can be
    /// registered for its server.
    pub fn window_request(&mut self, wid: usize, method: Method, position: Position) -> (r: Option<
        Outgoing,
    >)
        requires
            old(self).wf(),
        ensures
            final(self).wf(),
            r is Some == can_ask(*old(self), wid, 1),
            r is None ==> *final(self) == *old(self),
            r is Some ==> asked(*old(self), *final(self), wid, seq![method], position, seq![r->0]),
            final(self).current_hover == old(self).current_hover,
    {
        let w = match self.ws.get(&wid) {
            Some(w) => w,
            None => {
                return None;
            },
        };
        let client = w.client.clone();
        let url = w.url.clone();
        let path = w.path.clone();
        match self.send_request(client.as_str(), url.as_str(), path.as_str(), method) {
            Some(id) => {
                let params = params_of(method, position);
                let out = Outgoing::Request { client, id, method, url, params };
                proof {
                    let w = old(self).ws@[wid];
                    assert(asked_requests(w, id, seq![method]) == seq![
                        RequestView { client: w.client@, id, method, url: w.url@, path: w.path@ },
                    ]);
                    assert(asked_messages(w, id, seq![method], position) == seq![out]);
                    assert(request_views(old(self).requests.entries@).push(
                        RequestView { client: w.client@, id, method, url: w.url@, path: w.path@ },
                    ) == request_views(old(self).requests.entries@) + asked_requests(
                        w,
                        id,
                        seq![method],
                    ));
                }
                Some(out)
            },
            None => None,
        }
    }

    /// A click on the word `text` in the row of the window `wid`, with the
    /// cursor of that window at `position`: the request that the word stands
    /// for is registered and returned. Nothing happens for another word.
    pub fn run_event(&mut self, text: &str, wid: usize, position: Position) -> (r: Option<Outgoing>)
        requires
            old(self).wf(),
        ensures
            final(self).wf(),
            r is Some == (spec_request_for(text@) is Some && can_ask(*old(self), wid, 1)),
            r is None ==> *final(self) == *old(self),
            r is Some ==> asked(
                *old(self),
                *final(self),
                wid,
                seq![spec_request_for(text@)->0],
                position,
                seq![r->0],
            ),
            final(self).current_hover == old(self).current_hover,
    {
        match request_for(text) {
            Some(method) => self.window_request(wid, method, position),
            None => None,
        }
    }

    /// The window `wid` has the focus, with the cursor at `position` in a
    /// line with the text `line`: a fresh record is kept for the window, and
    /// the requests that fill it are registered and returned. Nothing
    /// happens for a window that is not tracked; no request is made where
    /// not all of them can be registered.
    pub fn focus_requests(&mut self, wid: usize, position: Position, line: String) -> (out: Vec<
        Outgoing,
    >)
        requires
            old(self).wf(),
        ensures
            final(self).wf(),
            !old(self).ws@.contains_key(wid) ==> out@.len() == 0 && *final(self) == *old(self),
            old(self).ws@.contains_key(wid) ==> {
                let w = old(self).ws@[wid];
                &&& final(self).current_hover is Some
                &&& final(self).current_hover->0@ == (HoverData {
                    client_name: w.client@,
                    url: w.url@,
                    path: w.path@,
                    line: line@,
                    token: None,
                    hover: None,
                    signature: None,
                    lens: Seq::empty(),
                    completion: Seq::empty(),
                    code_actions: Seq::empty(),
                })
                &&& final(self).current_hover->0.actions@.len() == 0
                &&& final(self).current_hover->0.action_addrs@.len() == 0
                &&& final(self).current_hover->0.body@.len() == 0
                &&& if can_ask(*old(self), wid, focus_methods().len()) {
                    asked(*old(self), *final(self), wid, focus_methods(), position, out@)
                } else {
                    out@.len() == 0 && crate::server::same_but_hover(*final(self), *old(self))
                }
            },
    {
        let mut out: Vec<Outgoing> = Vec::new();
        let w = match self.ws.get(&wid) {
            Some(w) => w,
            None => {
                return out;
            },
        };
        let hover = WindowHover::new(w.client.clone(), w.url.clone(), w.path.clone(), line);
        let c = self.clients.find(&w.client);
        proof {
            lemma_position(self.clients.entries@, w.client@);
        }
        let enough = c < self.clients.len() && self.clients.entries[c].1.next_id <= usize::MAX - 6;
        let ghost h0 = hover;
        self.current_hover = Some(hover);
        if !enough {
            return out;
        }
        let id0 = self.clients.entries[c].1.next_id;
        let methods = vec![
            Method::Hover,
            Method::CodeAction,
            Method::Completion,
            Method::SemanticTokensRange,
            Method::SignatureHelp,
            Method::CodeLens,
        ];
        assert(methods@ == focus_methods());
        let ghost w0 = old(self).ws@[wid];
        let ghost c0 = old(self).clients.entries@[c as int];
        let mut k: usize = 0;
        assert(old(self).clients.entries@ == old(self).clients.entries@.update(
            c as int,
            (c0.0, Client { next_id: (id0 + 0) as usize, ..c0.1 }),
        ));
        assert(request_views(self.requests.entries@) == request_views(old(self).requests.entries@)
            + asked_requests(w0, id0, methods@.take(0)));
        while k < 6
            invariant
                k <= 6,
                methods@ == focus_methods(),
                self.wf(),
                old(self).wf(),
                id0 <= usize::MAX - 6,
                c < old(self).clients.entries@.len(),
                c == crate::table::position(old(self).clients.entries@, w0.client@),
                c0 == old(self).clients.entries@[c as int],
                id0 == c0.1.next_id,
                old(self).ws@.contains_key(wid),
                w0 == old(self).ws@[wid],
                self.ws == old(self).ws,
                self.clients.entries@ == old(self).clients.entries@.update(
                    c as int,
                    (c0.0, Client { next_id: (id0 + k) as usize, ..c0.1 }),
                ),
                request_views(self.requests.entries@) == request_views(old(self).requests.entries@)
                    + asked_requests(w0, id0, methods@.take(k as int)),
                out@ == asked_messages(w0, id0, methods@.take(k as int), position),
                self.current_hover == Some(h0),
                crate::server::same_but_requests_clients_hover(*self, *old(self)),
            decreases 6 - k,
        {
            let ghost before = *self;
            proof {
                crate::table::lemma_update_keeps_positions(
                    old(self).clients.entries@,
                    c as int,
                    Client { next_id: (id0 + k) as usize, ..c0.1 },
                    w0.client@,
                );
            }
            let r = self.window_request(wid, methods[k], position);
            proof {
                let m = methods@[k as int];
                assert(can_ask(before, wid, 1));
                assert(asked(before, *self, wid, seq![m], position, seq![r->0]));
                assert(methods@.take(k + 1) == methods@.take(k as int).push(m));
                assert(asked_requests(w0, id0, methods@.take(k + 1)) == asked_requests(
                    w0,
                    id0,
                    methods@.take(k as int),
                ) + asked_requests(w0, (id0 + k) as usize, seq![m]));
                let am = asked_messages(w0, (id0 + k) as usize, seq![m], position);
                assert(seq![r->0] == am);
                assert(r->0 == am[0]);
                assert(asked_messages(w0, id0, methods@.take(k + 1), position) == asked_messages(
                    w0,
                    id0,
                    methods@.take(k as int),
                    position,
                ).push(r->0));
            }
            out.push(r.unwrap());
            k += 1;
        }
        assert(methods@.take(6) == methods@);
        out
    }

    /// The file `name` has the focus.
    pub fn set_focus(&mut self, name: String)
        ensures
            final(self).focus == name,
            crate::server::same_but_focus(*final(self), *old(self)),
    {
        self.focus = name;
    }
}

} // verus!
