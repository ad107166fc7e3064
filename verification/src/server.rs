//! The coordinator: what it knows of windows, servers and open requests, and
//! what it decides on each event. It reads and writes nothing itself: each
//! function takes what was read and returns what is to be sent.
use std::collections::{HashMap, HashSet};

use vstd::prelude::*;
use vstd::string::StringExecFns;

use crate::hover::{HoverUpdate, WindowHover, updated};
use crate::lsp::{Client, ResponseError};
use crate::model::{Capabilities, Method, Position, Range};
use crate::table::{Key, Table, lemma_position, position, removed};
use crate::text::{decimal, str_eq};

pub mod actions;
pub mod commands;
pub mod dispatch;
pub mod edits;
pub mod frame;
pub mod render;
pub mod respond;
pub mod symbols;
pub mod windows;

pub use crate::server::frame::{
    same_but_autorun, same_but_capabilities, same_but_diags, same_but_focus, same_but_hover,
    same_but_output, same_but_progress, same_but_requests, same_but_requests_clients,
    same_but_requests_clients_autorun, same_but_requests_clients_hover, same_but_requests_output,
    same_but_shown, same_but_ws,
};

verus! {

broadcast use vstd::std_specs::hash::group_hash_axioms;

/// The address of the document that stands for no document.
pub open spec fn root_url() -> Seq<char> {
    "file:///"@
}

/// A request of ours: the server's name and the request's id.
#[derive(Debug, PartialEq, Eq)]
pub struct ClientId {
    pub client_name: String,
    pub msg_id: usize,
}

impl View for ClientId {
    type V = (Seq<char>, usize);

    open spec fn view(&self) -> (Seq<char>, usize) {
        (self.client_name@, self.msg_id)
    }
}

impl Key for ClientId {
    fn same(&self, other: &Self) -> (r: bool) {
        self.msg_id == other.msg_id && str_eq(
            self.client_name.as_str(),
            other.client_name.as_str(),
        )
    }
}

impl ClientId {
    pub fn new(client_name: String, msg_id: usize) -> (c: ClientId)
        ensures
            c.client_name == client_name,
            c.msg_id == msg_id,
    {
        ClientId { client_name, msg_id }
    }
}

/// What is remembered of a request until its response comes.
#[derive(Debug, PartialEq, Eq)]
pub struct Pending {
    pub method: Method,
    pub url: String,
    /// The path part of `url`.
    pub path: String,
}

/// An open request, with its texts as sequences of characters.
pub struct RequestView {
    pub client: Seq<char>,
    pub id: usize,
    pub method: Method,
    pub url: Seq<char>,
    pub path: Seq<char>,
}

/// The open requests of `reqs`, in order.
pub open spec fn request_views(reqs: Seq<(ClientId, Pending)>) -> Seq<RequestView> {
    reqs.map_values(
        |e: (ClientId, Pending)|
            RequestView {
                client: e.0.client_name@,
                id: e.0.msg_id,
                method: e.1.method,
                url: e.1.url@,
                path: e.1.path@,
            },
    )
}

/// The progress of a piece of work that a server reports.
#[derive(Debug, PartialEq, Eq)]
pub struct WDProgress {
    pub name: String,
    pub percentage: Option<u32>,
    pub message: Option<String>,
    pub title: String,
}

/// The percentage, and `?` where there is none.
pub open spec fn spec_format_pct(pct: Option<u32>) -> Seq<char> {
    match pct {
        Some(v) => decimal(v as nat),
        None => "?"@,
    }
}

/// The percentage, and `?` where there is none.
pub fn format_pct(pct: Option<u32>) -> (s: String)
    ensures
        s@ == spec_format_pct(pct),
{
    match pct {
        Some(v) => crate::text::decimal_string(v as u64),
        None => String::from_str("?"),
    }
}

impl WDProgress {
    pub fn new(
        name: String,
        percentage: Option<u32>,
        message: Option<String>,
        title: Option<String>,
    ) -> (p: WDProgress)
        ensures
            p.name == name,
            p.percentage == percentage,
            p.message == message,
            match title {
                Some(t) => p.title == t,
                None => p.title@.len() == 0,
            },
    {
        let title = match title {
            Some(t) => t,
            None => String::new(),
        };
        WDProgress { name, percentage, message, title }
    }

    /// The line that shows the progress: `[pct%] name:message (title)`.
    pub open spec fn spec_text(self) -> Seq<char> {
        "["@ + spec_format_pct(self.percentage) + "%] "@ + self.name@ + ":"@ + (match self.message {
            Some(m) => m@,
            None => Seq::empty(),
        }) + " ("@ + self.title@ + ")"@
    }

    /// The line that shows the progress.
    pub fn to_text(&self) -> (s: String)
        ensures
            s@ == self.spec_text(),
    {
        let mut s = String::from_str("[");
        let pct = format_pct(self.percentage);
        s.append(pct.as_str());
        s.append("%] ");
        s.append(self.name.as_str());
        s.append(":");
        if let Some(m) = &self.message {
            s.append(m.as_str());
        }
        s.append(" (");
        s.append(self.title.as_str());
        s.append(")");
        s
    }
}

/// A window that a server knows: the address and path of its document, the
/// version of the text last sent, and the server's name.
#[derive(Debug, PartialEq, Eq)]
pub struct ServerWin {
    pub id: usize,
    pub url: String,
    pub path: String,
    pub version: i32,
    pub client: String,
}

/// The text of a document in one version.
#[derive(Debug, PartialEq, Eq)]
pub struct Snapshot {
    pub url: String,
    pub version: i32,
    pub text: String,
}

impl ServerWin {
    /// A window that has sent no text yet: its version is 1.
    pub fn new(id: usize, url: String, path: String, client: String) -> (w: ServerWin)
        ensures
            w.id == id,
            w.url == url,
            w.path == path,
            w.client == client,
            w.version == 1,
    {
        ServerWin { id, url, path, version: 1, client }
    }

    /// Counts the version up by one for the text `body` and returns both;
    /// `None`, and nothing counted, where the version cannot grow.
    pub fn text(&mut self, body: String) -> (r: Option<(i32, String)>)
        ensures
            old(self).version < i32::MAX ==> {
                &&& r == Some((final(self).version, body))
                &&& final(self).version == old(self).version + 1
            },
            old(self).version == i32::MAX ==> r is None && final(self).version == old(self).version,
            final(self).id == old(self).id,
            final(self).url == old(self).url,
            final(self).path == old(self).path,
            final(self).client == old(self).client,
    {
        if self.version == i32::MAX {
            return None;
        }
        self.version = self.version + 1;
        Some((self.version, body))
    }

    /// The next version of the document with the text `body`.
    pub fn change_params(&mut self, body: String) -> (r: Option<Snapshot>)
        ensures
            old(self).version < i32::MAX ==> {
                &&& final(self).version == old(self).version + 1
                &&& r == Some(
                    Snapshot { url: old(self).url, version: final(self).version, text: body },
                )
            },
            old(self).version == i32::MAX ==> r is None && final(self).version == old(self).version,
            final(self).id == old(self).id,
            final(self).url == old(self).url,
            final(self).path == old(self).path,
            final(self).client == old(self).client,
    {
        match self.text(body) {
            Some((version, text)) => Some(Snapshot { url: self.url.clone(), version, text }),
            None => None,
        }
    }

    /// The address of the window's document.
    pub fn doc_ident(&self) -> (u: String)
        ensures
            u == self.url,
    {
        self.url.clone()
    }
}

/// What a request carries besides the document.
#[derive(Debug, PartialEq, Eq)]
pub enum Params {
    /// The document alone.
    Document,
    /// A position in the document.
    Position(Position),
    /// A range of the document.
    Range(Range),
    /// Code actions for a range, of the kinds in `only` where that is given.
    CodeAction { range: Range, only: Option<Vec<String>> },
    /// An item as a server sent it.
    Raw(String),
}

/// A message for a language server.
#[derive(Debug, PartialEq, Eq)]
pub enum Outgoing {
    Request { client: String, id: usize, method: Method, url: String, params: Params },
    Initialized { client: String },
    DidOpen { client: String, url: String, version: i32, text: String },
    DidChange { client: String, url: String, version: i32, text: String },
    DidClose { client: String, url: String },
    DidSave { client: String, url: String },
}

/// What the coordinator reads of a server's configuration.
#[derive(Debug)]
pub struct ConfigServer {
    /// The pattern of the file names that the server takes.
    pub files: String,
    pub actions_on_put: Option<Vec<String>>,
    pub format_on_put: Option<bool>,
}

/// The coordinator's state.
#[derive(Debug)]
pub struct Server {
    /// Server name to configuration.
    pub config: Table<String, ConfigServer>,
    /// Window id to window.
    pub ws: HashMap<usize, ServerWin>,
    /// File name and window id, in the order in which the windows are shown.
    pub names: Vec<(String, usize)>,
    /// Byte offset in the body and window id, for each window's row; at the
    /// end the offset behind the rows, with the id 0.
    pub addr: Vec<(usize, usize)>,
    /// The addresses of the documents that the servers have open.
    pub opened_urls: Table<String, ()>,
    /// The body of the control window as last written.
    pub body: String,
    /// The output of the last command.
    pub output: String,
    /// The name of the file in the focused window.
    pub focus: String,
    pub progress: Table<String, WDProgress>,
    /// File name to the lines of its diagnostics.
    pub diags: Table<String, Vec<String>>,
    /// The requests without a response yet.
    pub requests: Table<ClientId, Pending>,
    pub current_hover: Option<WindowHover>,
    /// Server name to server.
    pub clients: Table<String, Client>,
    /// Server name to what the server can do, once it has said so.
    pub capabilities: Table<String, Capabilities>,
    /// File name to server name.
    pub files: Table<String, String>,
    /// The ids of the code-action requests whose results are run at once.
    pub autorun: HashSet<usize>,
}

/// Whether the window `id` is among the windows by name `names`.
pub open spec fn listed(names: Seq<(String, usize)>, id: usize) -> bool {
    exists|i: int| 0 <= i < names.len() && (#[trigger] names[i]).1 == id
}

impl Server {
    /// Every open request has an id that its server has given out already.
    pub open spec fn ids_given(&self) -> bool {
        forall|i: int|
            0 <= i < self.requests.entries@.len() ==> {
                let id = (#[trigger] self.requests.entries@[i]).0;
                let p = position(self.clients.entries@, id.client_name@);
                p < self.clients.entries@.len() ==> id.msg_id < self.clients.entries@[p].1.next_id
            }
    }

    /// Every window that is known is among the windows by name.
    pub open spec fn windows_listed(&self) -> bool {
        forall|id: usize| #[trigger] self.ws@.contains_key(id) ==> listed(self.names@, id)
    }

    /// No table holds a key twice, every open request has an id that its
    /// server has given out already, and every window that is known is
    /// among the windows by name.
    pub open spec fn wf(&self) -> bool {
        &&& self.ids_given()
        &&& self.config.wf()
        &&& self.windows_listed()
        &&& self.opened_urls.wf()
        &&& self.progress.wf()
        &&& self.diags.wf()
        &&& self.requests.wf()
        &&& self.clients.wf()
        &&& self.capabilities.wf()
        &&& self.files.wf()
    }

    /// Whether the request `id` of `client` is open.
    pub open spec fn outstanding(&self, client: Seq<char>, id: usize) -> bool {
        self.requests.has((client, id))
    }

    /// Registers a request of `method` about the document `url` with the
    /// server `client_name` and returns its id: the server's next one.
    /// `None`, and nothing changed, where there is no such server or its ids
    /// are used up.
    pub fn send_request(&mut self, client_name: &str, url: &str, path: &str, method: Method) -> (r:
        Option<usize>)
        requires
            old(self).wf(),
        ensures
            final(self).wf(),
            r is Some == (old(self).clients.has(client_name@) && old(self).clients.value(
                client_name@,
            ).next_id < usize::MAX),
            r is None ==> *final(self) == *old(self),
            r matches Some(id) ==> {
                let i = position(old(self).clients.entries@, client_name@);
                let c = old(self).clients.entries@[i];
                &&& id == c.1.next_id
                &&& final(self).clients.entries@ == old(self).clients.entries@.update(
                    i,
                    (c.0, Client { next_id: (id + 1) as usize, ..c.1 }),
                )
                &&& request_views(final(self).requests.entries@) == request_views(
                    old(self).requests.entries@,
                ).push(RequestView { client: client_name@, id, method, url: url@, path: path@ })
                &&& !old(self).outstanding(client_name@, id)
                &&& final(self).outstanding(client_name@, id)
                &&& same_but_requests_clients(*final(self), *old(self))
            },
    {
        let name = String::from_str(client_name);
        let i = self.clients.find(&name);
        if i >= self.clients.len() {
            return None;
        }
        proof {
            lemma_position(self.clients.entries@, client_name@);
        }
        if self.clients.entries[i].1.next_id == usize::MAX {
            return None;
        }
        let id = self.clients.entries[i].1.next_id;
        let c = Client {
            name: self.clients.entries[i].1.name.clone(),
            files: self.clients.entries[i].1.files.clone(),
            next_id: id + 1,
        };
        let ghost clients0 = self.clients.entries@;
        self.clients.replace_at(i, c);
        let key = ClientId::new(name, id);
        let pending = Pending { method, url: String::from_str(url), path: String::from_str(path) };
        let ghost before = self.requests.entries@;
        proof {
            let k0 = (client_name@, id);
            lemma_position(before, k0);
            if position(before, k0) < before.len() {
                let e = before[position(before, k0)];
                assert(e.0@ == k0);
                assert(e.0.msg_id < clients0[position(clients0, e.0.client_name@)].1.next_id);
            }
        }
        self.requests.insert(key, pending);
        proof {
            let after = self.requests.entries@;
            let k0 = (client_name@, id);
            assert(after == before.push((key, pending)));
            assert(request_views(after) == request_views(before).push(
                RequestView { client: client_name@, id, method, url: url@, path: path@ },
            ));
            assert forall|j: int| 0 <= j < before.len() implies (#[trigger] after[j]).0@ != k0 by {
                assert(after[j] == before[j]);
                lemma_position(before, k0);
            }
            crate::table::lemma_position_is(after, k0, before.len() as int);
            let clients1 = self.clients.entries@;
            assert forall|q: int| 0 <= q < after.len() implies ({
                let id2 = (#[trigger] after[q]).0;
                let p = position(clients1, id2.client_name@);
                p < clients1.len() ==> id2.msg_id < clients1[p].1.next_id
            }) by {
                let id2 = after[q].0;
                crate::table::lemma_update_keeps_positions(clients0, i as int, c, id2.client_name@);
                let p = position(clients0, id2.client_name@);
                lemma_position(clients0, id2.client_name@);
                if q < before.len() {
                    assert(after[q] == before[q]);
                }
            }
        }
        Some(id)
    }

    /// Takes the open request `id` out of the table and returns what was
    /// remembered of it.
    pub fn take_request(&mut self, id: &ClientId) -> (r: Option<Pending>)
        requires
            old(self).wf(),
        ensures
            final(self).wf(),
            !final(self).outstanding(id.client_name@, id.msg_id),
            r is Some == old(self).outstanding(id.client_name@, id.msg_id),
            r is Some ==> r->0 == old(self).requests.value(id@),
            final(self).requests.entries@ == removed(old(self).requests.entries@, id@),
            !old(self).outstanding(id.client_name@, id.msg_id) ==> *final(self) == *old(self),
            same_but_requests(*final(self), *old(self)),
    {
        proof {
            lemma_position(self.requests.entries@, id@);
        }
        let ghost before = self.requests.entries@;
        let r = self.requests.remove(id);
        proof {
            let after = self.requests.entries@;
            let p = position(before, id@);
            assert forall|q: int| 0 <= q < after.len() implies ({
                let id2 = (#[trigger] after[q]).0;
                let c = position(self.clients.entries@, id2.client_name@);
                c < self.clients.entries@.len() ==> id2.msg_id < self.clients.entries@[c].1.next_id
            }) by {
                if p < before.len() {
                    if q < p {
                        assert(after[q] == before[q]);
                    } else {
                        assert(after[q] == before[q + 1]);
                    }
                }
            }
        }
        r
    }

    /// An error came for the request `id`: the request is closed and the
    /// error's message becomes the output.
    pub fn lsp_error(&mut self, id: &ClientId, err: ResponseError)
        requires
            old(self).wf(),
        ensures
            final(self).wf(),
            !final(self).outstanding(id.client_name@, id.msg_id),
            final(self).output == err.message,
            final(self).requests.entries@ == removed(old(self).requests.entries@, id@),
            same_but_requests_output(*final(self), *old(self)),
    {
        self.take_request(id);
        self.output = err.message;
    }

    /// Applies `update` to the focused window's record where that record is
    /// for the document `url`; a change for another document is dropped.
    pub fn set_hover(&mut self, url: &str, update: HoverUpdate)
        ensures
            match old(self).current_hover {
                Some(h) => {
                    &&& final(self).current_hover is Some
                    &&& if h.url@ == url@ {
                        &&& final(self).current_hover->0@ == updated(h@, update)
                        &&& final(self).current_hover->0.up_to_date()
                    } else {
                        final(self).current_hover->0 == h
                    }
                },
                None => final(self).current_hover is None,
            },
            same_but_hover(*final(self), *old(self)),
    {
        let taken = self.current_hover.take();
        if let Some(mut h) = taken {
            if str_eq(h.url.as_str(), url) {
                h.apply(update);
            }
            self.current_hover = Some(h);
        }
    }

    /// The text of window `wid` has changed to `text`: the window's version
    /// grows by one and the new text goes to its server. Nothing happens for
    /// a window that is not tracked, or whose version cannot grow.
    pub fn did_change(&mut self, wid: usize, text: String) -> (r: Option<Outgoing>)
        requires
            old(self).wf(),
        ensures
            final(self).wf(),
            r is Some == (old(self).ws@.contains_key(wid) && old(self).ws@[wid].version < i32::MAX),
            r is None ==> *final(self) == *old(self),
            r is Some ==> {
                let w = old(self).ws@[wid];
                &&& r->0 == (Outgoing::DidChange {
                    client: w.client,
                    url: w.url,
                    version: (w.version + 1) as i32,
                    text,
                })
                &&& final(self).ws@ == old(self).ws@.insert(
                    wid,
                    ServerWin { version: (w.version + 1) as i32, ..w },
                )
                &&& final(self).ws@[wid].version > w.version
            },
            same_but_ws(*final(self), *old(self)),
    {
        let w = match self.ws.get(&wid) {
            Some(w) => w,
            None => {
                return None;
            },
        };
        if w.version == i32::MAX {
            return None;
        }
        let version = w.version + 1;
        let client = w.client.clone();
        let url = w.url.clone();
        let next = ServerWin {
            id: w.id,
            url: w.url.clone(),
            path: w.path.clone(),
            version,
            client: w.client.clone(),
        };
        self.ws.insert(wid, next);
        Some(Outgoing::DidChange { client, url, version, text })
    }
}

} // verus!
