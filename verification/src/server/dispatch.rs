//! The coordinator at its start, and the messages that come from the servers.
use std::collections::{HashMap, HashSet};

use vstd::prelude::*;
use vstd::string::StringExecFns;

use crate::Error;
use crate::hover::{HoverData, HoverUpdate, WindowHover};
use crate::lsp::{Client, DeMessage, MessageKind};
use crate::model::{Capabilities, Location, Method};
use crate::server::{
    ClientId, ConfigServer, Outgoing, Params, Pending, RequestView, Server, ServerWin,
    request_views,
};
use crate::server::commands::Effect;
use crate::server::respond::{
    HoverContents, SignatureHelp, SymbolInformation, flat_symbols_output, hover_text,
    references_output, shown_signature, signature_text, spec_hover_text, spec_references_output,
    spec_signature_text, symbol_lines,
};
use crate::table::{Table, lemma_inserted_sets, lemma_position, position, removed, set_at_key};
use crate::text::join;

verus! {

/// A response that is to be read: the request it answers and the result as
/// the server sent it.
#[derive(Debug, PartialEq, Eq)]
pub struct Awaited {
    pub id: ClientId,
    pub pending: Pending,
    pub result: String,
}

/// What a message of a server turned out to be.
#[derive(Debug, PartialEq, Eq)]
pub enum Incoming {
    /// An error for one of our requests; it has been dealt with.
    Error,
    /// A request of the server; it is passed over.
    Request,
    /// A response to one of our requests that carries a result.
    Response(Awaited),
    /// A response without a result.
    Empty,
    /// A response to a request that is not open.
    Unexpected,
    /// A notification of the server, with its parameters as they came.
    Notification { method: String, params: Option<String> },
    /// Neither an id nor a method.
    Unknown,
}

impl Server {
    /// A coordinator for the servers of `config`, in the order of `config`.
    /// Each server's first request, for initialization, is open.
    pub fn new(config: Table<String, ConfigServer>) -> (r: (Server, Vec<Outgoing>))
        requires
            config.wf(),
        ensures
            r.0.wf(),
            r.0.config == config,
            r.0.clients.entries@.len() == config.entries@.len(),
            r.1@.len() == config.entries@.len(),
            r.0.requests.entries@.len() == config.entries@.len(),
            forall|i: int|
                #![trigger r.0.clients.entries@[i]]
                #![trigger r.0.requests.entries@[i]]
                #![trigger r.1@[i]]
                0 <= i < config.entries@.len() ==> {
                    let name = config.entries@[i].0;
                    &&& r.0.clients.entries@[i].0 == name
                    &&& r.0.clients.entries@[i].1.name == name
                    &&& r.0.clients.entries@[i].1.files == config.entries@[i].1.files
                    &&& r.0.clients.entries@[i].1.next_id == 2
                    &&& request_views(r.0.requests.entries@)[i] == (RequestView {
                        client: name@,
                        id: 1,
                        method: Method::Initialize,
                        url: crate::server::root_url(),
                        path: "/"@,
                    })
                    &&& r.1@[i] == (Outgoing::Request {
                        client: name,
                        id: 1,
                        method: Method::Initialize,
                        url: r.0.requests.entries@[i].1.url,
                        params: Params::Document,
                    })
                },
            r.0.ws@ == Map::<usize, ServerWin>::empty(),
            r.0.names@.len() == 0,
            r.0.addr@.len() == 0,
            r.0.opened_urls.entries@.len() == 0,
            r.0.body@.len() == 0,
            r.0.output@.len() == 0,
            r.0.focus@.len() == 0,
            r.0.progress.entries@.len() == 0,
            r.0.diags.entries@.len() == 0,
            r.0.current_hover is None,
            r.0.capabilities.entries@.len() == 0,
            r.0.files.entries@.len() == 0,
            r.0.autorun@ == Set::<usize>::empty(),
    {
        let mut clients: Table<String, Client> = Table::new();
        let mut requests: Table<ClientId, Pending> = Table::new();
        let mut out: Vec<Outgoing> = Vec::new();
        let mut i: usize = 0;
        while i < config.entries.len()
            invariant
                i <= config.entries.len(),
                config.wf(),
                clients.entries@.len() == i,
                requests.entries@.len() == i,
                out@.len() == i,
                forall|j: int|
                    #![trigger clients.entries@[j]]
                    #![trigger requests.entries@[j]]
                    #![trigger out@[j]]
                    0 <= j < i ==> {
                        let name = config.entries@[j].0;
                        &&& clients.entries@[j].0 == name
                        &&& clients.entries@[j].1.name == name
                        &&& clients.entries@[j].1.files == config.entries@[j].1.files
                        &&& clients.entries@[j].1.next_id == 2
                        &&& requests.entries@[j].0.client_name == name
                        &&& requests.entries@[j].0.msg_id == 1
                        &&& requests.entries@[j].1.method == Method::Initialize
                        &&& requests.entries@[j].1.url@ == crate::server::root_url()
                        &&& requests.entries@[j].1.path@ == "/"@
                        &&& out@[j] == (Outgoing::Request {
                            client: name,
                            id: 1,
                            method: Method::Initialize,
                            url: requests.entries@[j].1.url,
                            params: Params::Document,
                        })
                    },
            decreases config.entries.len() - i,
        {
            let name = config.entries[i].0.clone();
            let c = Client { name: name.clone(), files: config.entries[i].1.files.clone(), next_id: 2 };
            clients.entries.push((name.clone(), c));
            let url = String::from_str("file:///");
            requests.entries.push(
                (
                    ClientId::new(name.clone(), 1),
                    Pending {
                        method: Method::Initialize,
                        url: url.clone(),
                        path: String::from_str("/"),
                    },
                ),
            );
            out.push(
                Outgoing::Request {
                    client: name,
                    id: 1,
                    method: Method::Initialize,
                    url,
                    params: Params::Document,
                },
            );
            i += 1;
        }
        let s = Server {
            config,
            ws: HashMap::new(),
            names: Vec::new(),
            addr: Vec::new(),
            opened_urls: Table::new(),
            body: String::new(),
            output: String::new(),
            focus: String::new(),
            progress: Table::new(),
            diags: Table::new(),
            requests,
            current_hover: None,
            clients,
            capabilities: Table::new(),
            files: Table::new(),
            autorun: HashSet::new(),
        };
        proof {
            let cs = s.clients.entries@;
            assert forall|a: int, b: int| 0 <= a < b < cs.len() implies cs[a].0@ != cs[b].0@ by {
                assert(s.clients.entries@[a].0 == s.config.entries@[a].0);
                assert(s.clients.entries@[b].0 == s.config.entries@[b].0);
                assert(s.config.entries@[a].0@ != s.config.entries@[b].0@);
            }
            let rs = s.requests.entries@;
            assert forall|a: int, b: int| 0 <= a < b < rs.len() implies rs[a].0@ != rs[b].0@ by {
                assert(s.requests.entries@[a].0.client_name == s.config.entries@[a].0);
                assert(s.requests.entries@[b].0.client_name == s.config.entries@[b].0);
                assert(s.config.entries@[a].0@ != s.config.entries@[b].0@);
            }
            assert forall|q: int| 0 <= q < s.requests.entries@.len() implies ({
                let id = (#[trigger] s.requests.entries@[q]).0;
                let p = position(s.clients.entries@, id.client_name@);
                p < s.clients.entries@.len() ==> id.msg_id < s.clients.entries@[p].1.next_id
            }) by {
                let id = s.requests.entries@[q].0;
                lemma_position(s.clients.entries@, id.client_name@);
                let p = position(s.clients.entries@, id.client_name@);
                if p < s.clients.entries@.len() {
                    assert(s.clients.entries@[p].1.next_id == 2);
                }
            }
        }
        (s, out)
    }

    /// A request of a server: it is passed over.
    pub fn lsp_request(&mut self, msg: &DeMessage)
        ensures
            *final(self) == *old(self),
    {
    }

    /// A response came for the request `id`: the request is closed. Returns
    /// what is to be read, where the response carries a result. A response
    /// to a request that is not open is refused.
    pub fn lsp_response(&mut self, id: ClientId, result: Option<String>) -> (r: Result<
        Option<Awaited>,
        Error,
    >)
        requires
            old(self).wf(),
        ensures
            final(self).wf(),
            !final(self).outstanding(id.client_name@, id.msg_id),
            final(self).requests.entries@ == removed(old(self).requests.entries@, id@),
            crate::server::same_but_requests(*final(self), *old(self)),
            match r {
                Ok(Some(a)) => {
                    &&& old(self).outstanding(id.client_name@, id.msg_id)
                    &&& result is Some
                    &&& a == (Awaited {
                        id,
                        pending: old(self).requests.value(id@),
                        result: result->0,
                    })
                },
                Ok(None) => old(self).outstanding(id.client_name@, id.msg_id) && result is None,
                Err(e) => e == Error::NoSuchRequest && !old(self).outstanding(
                    id.client_name@,
                    id.msg_id,
                ),
            },
    {
        let pending = match self.take_request(&id) {
            Some(p) => p,
            None => {
                return Err(Error::NoSuchRequest);
            },
        };
        match result {
            Some(result) => Ok(Some(Awaited { id, pending, result })),
            None => Ok(None),
        }
    }

    /// A message came from the server `client_name`. An error closes its
    /// request and becomes the output; a response closes its request and is
    /// handed back to be read; a notification is handed back; a request of
    /// the server is passed over.
    pub fn lsp_msg(&mut self, client_name: String, msg: DeMessage) -> (r: Incoming)
        requires
            old(self).wf(),
        ensures
            final(self).wf(),
            match msg.spec_kind() {
                MessageKind::Error => {
                    &&& r is Error
                    &&& !final(self).outstanding(client_name@, msg.id->0)
                    &&& final(self).requests.entries@ == removed(
                        old(self).requests.entries@,
                        (client_name@, msg.id->0),
                    )
                    &&& final(self).output == msg.error->0.message
                    &&& crate::server::same_but_requests_output(*final(self), *old(self))
                },
                MessageKind::Request => r is Request && *final(self) == *old(self),
                MessageKind::Response => {
                    &&& !final(self).outstanding(client_name@, msg.id->0)
                    &&& final(self).requests.entries@ == removed(
                        old(self).requests.entries@,
                        (client_name@, msg.id->0),
                    )
                    &&& crate::server::same_but_requests(*final(self), *old(self))
                    &&& if !old(self).outstanding(client_name@, msg.id->0) {
                        r is Unexpected
                    } else if msg.result is Some {
                        &&& r is Response
                        &&& r->Response_0.id@ == (client_name@, msg.id->0)
                        &&& r->Response_0.pending == old(self).requests.value(
                            (client_name@, msg.id->0),
                        )
                        &&& r->Response_0.result == msg.result->0
                    } else {
                        r is Empty
                    }
                },
                MessageKind::Notification => {
                    &&& r == (Incoming::Notification { method: msg.method->0, params: msg.params })
                    &&& *final(self) == *old(self)
                },
                MessageKind::Unknown => r is Unknown && *final(self) == *old(self),
            },
    {
        match msg.kind() {
            MessageKind::Error => {
                let id = ClientId::new(client_name, msg.id.unwrap());
                self.lsp_error(&id, msg.error.unwrap());
                Incoming::Error
            },
            MessageKind::Request => {
                self.lsp_request(&msg);
                Incoming::Request
            },
            MessageKind::Response => {
                let id = ClientId::new(client_name, msg.id.unwrap());
                match self.lsp_response(id, msg.result) {
                    Ok(Some(a)) => Incoming::Response(a),
                    Ok(None) => Incoming::Empty,
                    Err(_) => Incoming::Unexpected,
                }
            },
            MessageKind::Notification => Incoming::Notification {
                method: msg.method.unwrap(),
                params: msg.params,
            },
            MessageKind::Unknown => Incoming::Unknown,
        }
    }

    /// The server `client` has said what it can do: that is kept, the server
    /// is told that it is initialized, and the windows are gone through.
    pub fn on_initialize(&mut self, client: &str, caps: Capabilities) -> (out: Vec<Effect>)
        requires
            old(self).wf(),
        ensures
            final(self).wf(),
            set_at_key(old(self).capabilities.entries@, final(self).capabilities.entries@, client@),
            final(self).capabilities.value(client@) == caps,
            crate::server::same_but_capabilities(*final(self), *old(self)),
            out@.len() == 2,
            out@[0] matches Effect::Send(Outgoing::Initialized { client: c }) && c@ == client@,
            out@[1] is SyncWindows,
    {
        let key = String::from_str(client);
        proof {
            lemma_inserted_sets(self.capabilities.entries@, key, caps);
        }
        self.capabilities.insert(key, caps);
        let mut out: Vec<Effect> = Vec::new();
        out.push(Effect::Send(Outgoing::Initialized { client: String::from_str(client) }));
        out.push(Effect::SyncWindows);
        out
    }

    /// The references `locs` came: in order, one on each line, they become
    /// the output. An empty list leaves the output as it is.
    pub fn on_references(&mut self, locs: Vec<Location>)
        ensures
            locs@.len() > 0 ==> final(self).output@ == spec_references_output(locs@),
            locs@.len() == 0 ==> final(self).output == old(self).output,
            crate::server::same_but_output(*final(self), *old(self)),
    {
        if let Some(o) = references_output(locs) {
            self.output = o;
        }
    }

    /// A flat list of symbols came: the lines of those that are shown become
    /// the output. Where none is shown the output stays as it is.
    pub fn on_symbols(&mut self, sis: &Vec<SymbolInformation>)
        ensures
            ({
                let ls = symbol_lines(sis@, sis@.len());
                if ls.len() > 0 {
                    final(self).output@ == join(ls, "\n"@, ls.len())
                } else {
                    final(self).output == old(self).output
                }
            }),
            crate::server::same_but_output(*final(self), *old(self)),
    {
        if let Some(o) = flat_symbols_output(sis) {
            self.output = o;
        }
    }

    /// A hover came for the document `url`: its text is kept for the focused
    /// window, where that shows the document.
    pub fn on_hover(&mut self, url: &str, contents: &HoverContents) -> (r: Result<(), Error>)
        ensures
            crate::server::same_but_hover(*final(self), *old(self)),
            match r {
                Ok(_) => {
                    &&& spec_hover_text(*contents) is Some
                    &&& hover_changed(
                        old(self).current_hover,
                        final(self).current_hover,
                        url@,
                        HoverChange::Hover(spec_hover_text(*contents)->0),
                    )
                },
                Err(e) => {
                    &&& e == Error::Unsupported
                    &&& spec_hover_text(*contents) is None
                    &&& *final(self) == *old(self)
                },
            },
    {
        match hover_text(contents) {
            Ok(text) => {
                self.set_hover(url, HoverUpdate::Hover(text));
                Ok(())
            },
            Err(e) => Err(e),
        }
    }

    /// Signature help came for the document `url`: the text of the signature
    /// it points to is kept for the focused window, where that shows the
    /// document.
    pub fn on_signature_help(&mut self, url: &str, help: &SignatureHelp) -> (r: Result<(), Error>)
        ensures
            crate::server::same_but_hover(*final(self), *old(self)),
            match r {
                Ok(_) => {
                    &&& shown_signature(*help) < help.signatures@.len()
                    &&& hover_changed(
                        old(self).current_hover,
                        final(self).current_hover,
                        url@,
                        HoverChange::Signature(
                            spec_signature_text(help.signatures@[shown_signature(*help)]),
                        ),
                    )
                },
                Err(e) => e == Error::ExpectedSignature && shown_signature(*help)
                    >= help.signatures@.len() && *final(self) == *old(self),
            },
    {
        match signature_text(help) {
            Ok(text) => {
                self.set_hover(url, HoverUpdate::Signature(text));
                Ok(())
            },
            Err(e) => Err(e),
        }
    }
}

/// A text that is kept for the focused window.
pub enum HoverChange {
    Hover(Seq<char>),
    Signature(Seq<char>),
}

/// Whether `after` is the focused window's record `before` with the text
/// `change` kept in it, where the record is for the document `url`, and the
/// record as it was in all other cases.
pub open spec fn hover_changed(
    before: Option<WindowHover>,
    after: Option<WindowHover>,
    url: Seq<char>,
    change: HoverChange,
) -> bool {
    match before {
        Some(h) => {
            &&& after is Some
            &&& if h.url@ == url {
                &&& after->0.up_to_date()
                &&& after->0@ == match change {
                    HoverChange::Hover(t) => HoverData { hover: Some(t), ..h@ },
                    HoverChange::Signature(t) => HoverData { signature: Some(t), ..h@ },
                }
            } else {
                after->0 == h
            }
        },
        None => after is None,
    }
}

} // verus!
