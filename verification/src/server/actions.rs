//! Running what a click or a save asks for.
use vstd::prelude::*;
use vstd::string::StringExecFns;

use crate::Error;
use crate::acme::Event;
use crate::hover::{ActionRef, HoverData, HoverUpdate, updated};
use crate::lsp::Client;
use crate::model::{
    Action, CodeActionOrCommand, CodeLens, CompletionItem, CompletionTextEdit, InsertTextFormat,
    Method, Position, Range, TextEdit, WorkspaceEdit,
};
use crate::nl::{NlOffsets, line_starts, spec_offset_to_line};
use crate::server::{ClientId, Outgoing, Params, RequestView, Server, ServerWin, request_views};
use crate::server::commands::{Click, Effect, asked, can_ask, spec_click};
use crate::server::edits::{
    DocEdits, DocEditsView, apply_workspace_edit, doc_views, workspace_edits,
};
use crate::table::{inserted, lemma_position, position, removed};
use crate::text::{lines, split_lines, str_eq, views};

verus! {

broadcast use vstd::std_specs::hash::group_hash_axioms;

/// What running an action comes to: things for the caller to do, in order,
/// and the error at which the run stopped, if it did.
#[derive(Debug, PartialEq, Eq)]
pub struct Outcome {
    pub effects: Vec<Effect>,
    pub error: Option<Error>,
}

/// The edits of the first `k` workspace edits, document by document, up to
/// the first workspace edit that is not supported; and whether there is such
/// a one among them.
pub open spec fn command_edits(edits: Seq<WorkspaceEdit>, k: nat) -> (Seq<DocEditsView>, bool)
    decreases k,
{
    if k == 0 {
        (Seq::empty(), false)
    } else {
        let (d, failed) = command_edits(edits, (k - 1) as nat);
        if failed {
            (d, true)
        } else {
            match workspace_edits(edits[k - 1]) {
                Some(v) => (d + v, false),
                None => (d, true),
            }
        }
    }
}

/// The document edits that the effects `effects` make, where all of them
/// make edits.
pub open spec fn edits_of(effects: Seq<Effect>) -> Seq<DocEditsView> {
    effects.map_values(
        |e: Effect|
            match e {
                Effect::Edit(d) => d@,
                _ => arbitrary(),
            },
    )
}

/// Whether all of `effects` make edits.
pub open spec fn all_edits(effects: Seq<Effect>) -> bool {
    forall|i: int| 0 <= i < effects.len() ==> (#[trigger] effects[i]) is Edit
}

fn push_doc_edits(out: &mut Vec<Effect>, docs: Vec<DocEdits>)
    requires
        all_edits(old(out)@),
    ensures
        all_edits(final(out)@),
        edits_of(final(out)@) == edits_of(old(out)@) + doc_views(docs@),
{
    let mut docs = docs;
    let ghost all = docs@;
    let ghost start = out@;
    let mut rev: Vec<DocEdits> = Vec::new();
    while docs.len() > 0
        invariant
            docs@ == all.take(docs@.len() as int),
            docs@.len() <= all.len(),
            rev@.len() == all.len() - docs@.len(),
            forall|j: int| 0 <= j < rev@.len() ==> rev@[j] == all[all.len() - 1 - j],
        decreases docs.len(),
    {
        let d = docs.pop().unwrap();
        rev.push(d);
    }
    assert(all.take(0) == Seq::<DocEdits>::empty());
    assert(edits_of(out@) == edits_of(start) + doc_views(all.take(0)));
    while rev.len() > 0
        invariant
            rev@.len() <= all.len(),
            forall|j: int| 0 <= j < rev@.len() ==> rev@[j] == all[all.len() - 1 - j],
            all_edits(out@),
            edits_of(out@) == edits_of(start) + doc_views(all.take(all.len() - rev@.len())),
        decreases rev.len(),
    {
        let ghost n = all.len() - rev@.len();
        let d = rev.pop().unwrap();
        let ghost before = out@;
        out.push(Effect::Edit(d));
        proof {
            assert(d == all[n]);
            assert(all.take(n + 1) == all.take(n).push(all[n]));
            assert(edits_of(out@) == edits_of(before).push(d@));
            assert(doc_views(all.take(n + 1)) == doc_views(all.take(n)).push(d@));
        }
    }
    assert(all.take(all.len() as int) == all);
}

/// Runs the workspace edits `edits` one after the other, up to the first
/// that is not supported.
pub fn run_edits(edits: &Vec<WorkspaceEdit>) -> (o: Outcome)
    ensures
        all_edits(o.effects@),
        edits_of(o.effects@) == command_edits(edits@, edits@.len()).0,
        o.error == if command_edits(edits@, edits@.len()).1 {
            Some(Error::Unsupported)
        } else {
            None
        },
{
    let mut effects: Vec<Effect> = Vec::new();
    let mut i: usize = 0;
    assert(edits_of(effects@) == Seq::<DocEditsView>::empty());
    while i < edits.len()
        invariant
            i <= edits.len(),
            all_edits(effects@),
            command_edits(edits@, i as nat) == (edits_of(effects@), false),
        decreases edits.len() - i,
    {
        match apply_workspace_edit(&edits[i]) {
            Ok(docs) => {
                push_doc_edits(&mut effects, docs);
            },
            Err(_) => {
                proof {
                    lemma_command_edits_stay(edits@, (i + 1) as nat, edits@.len());
                }
                return Outcome { effects, error: Some(Error::Unsupported) };
            },
        }
        i += 1;
    }
    Outcome { effects, error: None }
}

/// Once a workspace edit is not supported, those behind it change nothing.
pub proof fn lemma_command_edits_stay(edits: Seq<WorkspaceEdit>, k: nat, n: nat)
    requires
        k <= n,
        command_edits(edits, k).1,
    ensures
        command_edits(edits, n) == command_edits(edits, k),
    decreases n,
{
    if n > k {
        lemma_command_edits_stay(edits, k, (n - 1) as nat);
    }
}

/// The format in which the text of a completion is to be read.
pub open spec fn completion_format(item: CompletionItem) -> InsertTextFormat {
    match item.insert_text_format {
        Some(f) => f,
        None => InsertTextFormat::PlainText,
    }
}

impl Server {
    /// Registers a request of `method` that carries the item `raw` back to
    /// the server `client_name`, about the document `url`, and returns the
    /// message that makes it. `None`, and nothing changed, where the request
    /// cannot be registered.
    pub fn resolve_request(
        &mut self,
        client_name: &str,
        url: &str,
        path: &str,
        method: Method,
        raw: String,
    ) -> (r: Option<Outgoing>)
        requires
            old(self).wf(),
        ensures
            final(self).wf(),
            r is Some == (old(self).clients.has(client_name@) && old(self).clients.value(
                client_name@,
            ).next_id < usize::MAX),
            r is None ==> *final(self) == *old(self),
            r is Some ==> {
                let i = position(old(self).clients.entries@, client_name@);
                let c = old(self).clients.entries@[i];
                &&& r->0 matches Outgoing::Request { client, id, method: m, url: u, params }
                &&& client@ == client_name@
                &&& id == c.1.next_id
                &&& m == method
                &&& u@ == url@
                &&& params == Params::Raw(raw)
                &&& final(self).clients.entries@ == old(self).clients.entries@.update(
                    i,
                    (c.0, Client { next_id: (id + 1) as usize, ..c.1 }),
                )
                &&& request_views(final(self).requests.entries@) == request_views(
                    old(self).requests.entries@,
                ).push(RequestView { client: client_name@, id, method, url: url@, path: path@ })
                &&& crate::server::same_but_requests_clients(*final(self), *old(self))
            },
    {
        match self.send_request(client_name, url, path, method) {
            Some(id) => Some(
                Outgoing::Request {
                    client: String::from_str(client_name),
                    id,
                    method,
                    url: String::from_str(url),
                    params: Params::Raw(raw),
                },
            ),
            None => None,
        }
    }

    /// Runs `action` for the document `url` with the path `path`, served by
    /// `client_name`. A command makes the edits among its arguments. A code
    /// action makes its edit, and where it has none the server is asked to
    /// resolve it. A completion makes its edit. A lens is sent back to the
    /// server to be resolved.
    pub fn run_action(&mut self, client_name: &str, url: &str, path: &str, action: Action) -> (o:
        Outcome)
        requires
            old(self).wf(),
        ensures
            final(self).wf(),
            match action {
                Action::Command(CodeActionOrCommand::Command { title, edits }) => {
                    &&& *final(self) == *old(self)
                    &&& all_edits(o.effects@)
                    &&& edits_of(o.effects@) == command_edits(edits@, edits@.len()).0
                    &&& o.error == if command_edits(edits@, edits@.len()).1 {
                        Some(Error::Unsupported)
                    } else {
                        None
                    }
                },
                Action::Command(CodeActionOrCommand::CodeAction { title, edit: Some(e), raw }) => {
                    &&& *final(self) == *old(self)
                    &&& all_edits(o.effects@)
                    &&& match workspace_edits(e) {
                        Some(v) => edits_of(o.effects@) == v && o.error is None,
                        None => o.effects@.len() == 0 && o.error == Some(Error::Unsupported),
                    }
                },
                Action::Command(CodeActionOrCommand::CodeAction { title, edit: None, raw }) => {
                    &&& o.error is None
                    &&& resolving(
                        *old(self),
                        *final(self),
                        client_name@,
                        url@,
                        path@,
                        Method::CodeActionResolve,
                        raw,
                        o.effects@,
                    )
                },
                Action::Completion(item) => {
                    &&& *final(self) == *old(self)
                    &&& match item.text_edit {
                        Some(CompletionTextEdit::Edit(e)) => {
                            &&& o.error is None
                            &&& all_edits(o.effects@)
                            &&& edits_of(o.effects@) == seq![
                                DocEditsView {
                                    path: path@,
                                    format: completion_format(item),
                                    edits: seq![e],
                                },
                            ]
                        },
                        Some(CompletionTextEdit::InsertAndReplace) => o.effects@.len() == 0
                            && o.error is None,
                        None => o.effects@.len() == 0 && o.error == Some(Error::Unsupported),
                    }
                },
                Action::CodeLens(lens) => {
                    &&& o.error is None
                    &&& resolving(
                        *old(self),
                        *final(self),
                        client_name@,
                        url@,
                        path@,
                        Method::CodeLensResolve,
                        lens.raw,
                        o.effects@,
                    )
                },
            },
    {
        match action {
            Action::Command(CodeActionOrCommand::Command { title, edits }) => run_edits(&edits),
            Action::Command(CodeActionOrCommand::CodeAction { title, edit: Some(e), raw }) => {
                let mut effects: Vec<Effect> = Vec::new();
                assert(edits_of(effects@) == Seq::<DocEditsView>::empty());
                match apply_workspace_edit(&e) {
                    Ok(docs) => {
                        push_doc_edits(&mut effects, docs);
                        assert(Seq::<DocEditsView>::empty() + doc_views(docs@) == doc_views(docs@));
                        Outcome { effects, error: None }
                    },
                    Err(err) => Outcome { effects, error: Some(err) },
                }
            },
            Action::Command(CodeActionOrCommand::CodeAction { title, edit: None, raw }) => {
                let mut effects: Vec<Effect> = Vec::new();
                if let Some(m) = self.resolve_request(
                    client_name,
                    url,
                    path,
                    Method::CodeActionResolve,
                    raw,
                ) {
                    effects.push(Effect::Send(m));
                }
                Outcome { effects, error: None }
            },
            Action::Completion(item) => {
                let mut effects: Vec<Effect> = Vec::new();
                let format = match item.insert_text_format {
                    Some(f) => f,
                    None => InsertTextFormat::PlainText,
                };
                match item.text_edit {
                    Some(CompletionTextEdit::Edit(e)) => {
                        let mut edits: Vec<TextEdit> = Vec::new();
                        edits.push(e);
                        let d = DocEdits { path: String::from_str(path), format, edits };
                        effects.push(Effect::Edit(d));
                        assert(edits_of(effects@) == seq![d@]);
                        Outcome { effects, error: None }
                    },
                    Some(CompletionTextEdit::InsertAndReplace) => Outcome { effects, error: None },
                    None => Outcome { effects, error: Some(Error::Unsupported) },
                }
            },
            Action::CodeLens(lens) => {
                let mut effects: Vec<Effect> = Vec::new();
                if let Some(m) = self.resolve_request(
                    client_name,
                    url,
                    path,
                    Method::CodeLensResolve,
                    lens.raw,
                ) {
                    effects.push(Effect::Send(m));
                }
                Outcome { effects, error: None }
            },
        }
    }
}

/// Whether `after` and `effects` are what asking the server `client` to
/// resolve the item `raw` makes of `before`: where the request can be
/// registered it is open with the server's next id and `effects` holds the
/// message that makes it; where it cannot, nothing happens.
pub open spec fn resolving(
    before: Server,
    after: Server,
    client: Seq<char>,
    url: Seq<char>,
    path: Seq<char>,
    method: Method,
    raw: String,
    effects: Seq<Effect>,
) -> bool {
    let i = position(before.clients.entries@, client);
    if before.clients.has(client) && before.clients.entries@[i].1.next_id < usize::MAX {
        let c = before.clients.entries@[i];
        &&& effects.len() == 1
        &&& effects[0] matches Effect::Send(
            Outgoing::Request { client: cl, id, method: m, url: u, params },
        )
        &&& cl@ == client
        &&& id == c.1.next_id
        &&& m == method
        &&& u@ == url
        &&& params == Params::Raw(raw)
        &&& after.clients.entries@ == before.clients.entries@.update(
            i,
            (c.0, Client { next_id: (c.1.next_id + 1) as usize, ..c.1 }),
        )
        &&& request_views(after.requests.entries@) == request_views(before.requests.entries@).push(
            RequestView { client, id: c.1.next_id, method, url, path },
        )
        &&& crate::server::same_but_requests_clients(after, before)
    } else {
        effects.len() == 0 && after == before
    }
}

/// What a command of the control window asks for.
#[derive(Debug, PartialEq, Eq)]
pub enum CmdOutcome {
    /// Nothing.
    Nothing,
    /// What was shown has been forgotten; the windows are to be gone through
    /// anew.
    Refresh,
    /// A command that the coordinator does not know.
    Unexpected,
    /// The request that the clicked word stands for, for the window with
    /// this id.
    Window(usize),
    /// The action to run, with the server, the address and the path of the
    /// document it is for.
    Action { client: String, url: String, path: String, action: Action },
    /// The location to show.
    Plumb(String),
}

/// The action that `r` names in the record `h`.
pub open spec fn action_at(h: HoverData, r: ActionRef) -> Action {
    match r {
        ActionRef::CodeAction(i) => Action::Command(h.code_actions[i as int]),
        ActionRef::Completion(i) => Action::Completion(h.completion[i as int]),
        ActionRef::Lens(i) => Action::CodeLens(h.lens[i as int]),
    }
}

/// Whether `r` names an item that the record `h` holds.
pub open spec fn ref_valid(h: HoverData, r: ActionRef) -> bool {
    match r {
        ActionRef::CodeAction(i) => i < h.code_actions.len(),
        ActionRef::Completion(i) => i < h.completion.len(),
        ActionRef::Lens(i) => i < h.lens.len(),
    }
}

/// Whether the action with the index `idx` can be taken from the focused
/// window's record.
pub open spec fn can_take(s: Server, idx: usize) -> bool {
    &&& s.current_hover is Some
    &&& idx < s.current_hover->0.actions@.len()
    &&& ref_valid(s.current_hover->0@, s.current_hover->0.actions@[idx as int])
}

/// Whether `after` is `before` once an action has been taken from the
/// focused window's record: the code actions and the completions are
/// forgotten.
pub open spec fn taken(before: Server, after: Server) -> bool {
    &&& after.current_hover is Some
    &&& after.current_hover->0@ == updated(before.current_hover->0@, HoverUpdate::ClearActions)
    &&& after.current_hover->0.up_to_date()
    &&& crate::server::same_but_hover(after, before)
}

impl Server {
    /// Takes the action with the index `idx` from the focused window's
    /// record, for it to be run. The code actions and completions on offer
    /// are forgotten with that. Nothing happens where there is no such
    /// action.
    pub fn take_action(&mut self, idx: usize) -> (r: Option<Action>)
        ensures
            r is Some == can_take(*old(self), idx),
            r is None ==> *final(self) == *old(self),
            r is Some ==> {
                let h = old(self).current_hover->0;
                &&& r->0 == action_at(h@, h.actions@[idx as int])
                &&& taken(*old(self), *final(self))
            },
    {
        let taken = self.current_hover.take();
        let mut h = match taken {
            Some(h) => h,
            None => {
                return None;
            },
        };
        if idx >= h.actions.len() {
            self.current_hover = Some(h);
            return None;
        }
        let action = match h.actions[idx] {
            ActionRef::CodeAction(i) => {
                if i < h.code_actions.len() {
                    Some(Action::Command(h.code_actions.remove(i)))
                } else {
                    None
                }
            },
            ActionRef::Completion(i) => {
                if i < h.completion.len() {
                    Some(Action::Completion(h.completion.remove(i)))
                } else {
                    None
                }
            },
            ActionRef::Lens(i) => {
                if i < h.lens.len() {
                    Some(Action::CodeLens(CodeLens { raw: h.lens[i].raw.clone() }))
                } else {
                    None
                }
            },
        };
        match action {
            Some(a) => {
                h.apply(HoverUpdate::ClearActions);
                self.current_hover = Some(h);
                Some(a)
            },
            None => {
                self.current_hover = Some(h);
                None
            },
        }
    }

    /// A command of the control window. `Get` forgets the output, the
    /// diagnostics and the focused window's record. A look goes to what the
    /// click hits: a window's row, an action, or else a location.
    pub fn run_cmd(&mut self, ev: &Event) -> (r: CmdOutcome)
        ensures
            if ev.c2 == 'x' || ev.c2 == 'X' {
                if ev.text@ == "Get"@ {
                    &&& r is Refresh
                    &&& final(self).output@.len() == 0
                    &&& final(self).diags.entries@.len() == 0
                    &&& final(self).current_hover is None
                    &&& crate::server::same_but_shown(*final(self), *old(self))
                } else {
                    r is Unexpected && *final(self) == *old(self)
                }
            } else if ev.c2 == 'L' {
                match spec_click(*old(self), ev.q0) {
                    Click::Window(wid) => r == CmdOutcome::Window(wid) && *final(self) == *old(self),
                    Click::Action(idx) => if can_take(*old(self), idx) {
                        let h = old(self).current_hover->0;
                        &&& r matches CmdOutcome::Action { client, url, path, action }
                        &&& client@ == h.client_name@
                        &&& url@ == h.url@
                        &&& path@ == h.path@
                        &&& action == action_at(h@, h.actions@[idx as int])
                        &&& taken(*old(self), *final(self))
                    } else {
                        r matches CmdOutcome::Plumb(t) && t@ == ev.text@ && *final(self) == *old(self)
                    },
                    Click::Plumb => {
                        &&& r matches CmdOutcome::Plumb(t) && t@ == ev.text@
                        &&& *final(self) == *old(self)
                    },
                }
            } else {
                r is Nothing && *final(self) == *old(self)
            },
    {
        if ev.c2 == 'x' || ev.c2 == 'X' {
            if str_eq(ev.text.as_str(), "Get") {
                self.output = String::new();
                self.diags.clear();
                self.current_hover = None;
                return CmdOutcome::Refresh;
            }
            return CmdOutcome::Unexpected;
        }
        if ev.c2 != 'L' {
            return CmdOutcome::Nothing;
        }
        match self.resolve_click(ev.q0) {
            Click::Window(wid) => CmdOutcome::Window(wid),
            Click::Action(idx) => {
                let (client, url, path) = match &self.current_hover {
                    Some(h) => (h.client_name.clone(), h.url.clone(), h.path.clone()),
                    None => (String::new(), String::new(), String::new()),
                };
                match self.take_action(idx) {
                    Some(action) => CmdOutcome::Action { client, url, path, action },
                    None => CmdOutcome::Plumb(ev.text.clone()),
                }
            },
            Click::Plumb => CmdOutcome::Plumb(ev.text.clone()),
        }
    }

    /// Whether the documents of the server `client` are formatted when they
    /// are saved: the server can format, and its configuration does not say
    /// no.
    pub open spec fn formats_on_put(&self, client: Seq<char>) -> bool {
        &&& self.capabilities.has(client)
        &&& self.capabilities.value(client).document_formatting
        &&& self.config.has(client) ==> self.config.value(client).format_on_put != Some(false)
    }

    /// Whether the documents of the server `client` are formatted when they
    /// are saved.
    pub fn wants_format(&self, client: &String) -> (r: bool)
        ensures
            r == self.formats_on_put(client@),
    {
        let able = match self.capabilities.get(client) {
            Some(c) => c.document_formatting,
            None => false,
        };
        let allowed = match self.config.get(client) {
            Some(c) => match c.format_on_put {
                Some(false) => false,
                _ => true,
            },
            None => true,
        };
        able && allowed
    }

    /// The window `id` has been saved: its server is told so, and asked to
    /// format the document where documents are formatted on saving. Nothing
    /// happens for a window that is not tracked.
    pub fn cmd_put(&mut self, id: usize) -> (out: Vec<Outgoing>)
        requires
            old(self).wf(),
        ensures
            final(self).wf(),
            !old(self).ws@.contains_key(id) ==> out@.len() == 0 && *final(self) == *old(self),
            old(self).ws@.contains_key(id) ==> {
                let w = old(self).ws@[id];
                &&& out@.len() >= 1
                &&& out@[0] == (Outgoing::DidSave { client: w.client, url: w.url })
                &&& if old(self).formats_on_put(w.client@) && can_ask(*old(self), id, 1) {
                    asked(
                        *old(self),
                        *final(self),
                        id,
                        seq![Method::Formatting],
                        Position { line: 0, character: 0 },
                        out@.skip(1),
                    )
                } else {
                    out@.len() == 1 && *final(self) == *old(self)
                }
            },
    {
        let mut out: Vec<Outgoing> = Vec::new();
        let w = match self.ws.get(&id) {
            Some(w) => w,
            None => {
                return out;
            },
        };
        let client = w.client.clone();
        let url = w.url.clone();
        let format = self.wants_format(&client);
        out.push(Outgoing::DidSave { client, url });
        if format {
            if let Some(m) = self.window_request(
                id,
                Method::Formatting,
                Position { line: 0, character: 0 },
            ) {
                out.push(m);
                assert(out@.skip(1) == seq![m]);
            }
        }
        out
    }

    /// The kinds of code actions that are run when a document of the server
    /// `client` has been formatted on saving.
    pub open spec fn put_kinds(&self, client: Seq<char>) -> Seq<String> {
        if self.config.has(client) {
            match self.config.value(client).actions_on_put {
                Some(v) => v@,
                None => Seq::empty(),
            }
        } else {
            Seq::empty()
        }
    }

    /// A document of the server `client_name` has been formatted on saving:
    /// where the server has kinds of code actions to run then, the code
    /// actions of these kinds are asked for, and the request is noted as one
    /// whose results are run at once.
    pub fn put_actions(&mut self, client_name: &str, url: &str, path: &str) -> (r: Option<Outgoing>)
        requires
            old(self).wf(),
        ensures
            final(self).wf(),
            r is Some == (old(self).put_kinds(client_name@).len() > 0 && old(self).clients.has(
                client_name@,
            ) && old(self).clients.value(client_name@).next_id < usize::MAX),
            r is None ==> *final(self) == *old(self),
            r is Some ==> {
                let i = position(old(self).clients.entries@, client_name@);
                let c = old(self).clients.entries@[i];
                &&& r->0 matches Outgoing::Request { client, id, method, url: u, params }
                &&& client@ == client_name@
                &&& id == c.1.next_id
                &&& method == Method::CodeAction
                &&& u@ == url@
                &&& params matches Params::CodeAction { range, only: Some(kinds) }
                &&& range == (Range {
                    start: Position { line: 0, character: 0 },
                    end: Position { line: 0, character: 0 },
                })
                &&& views(kinds@) == views(old(self).put_kinds(client_name@))
                &&& final(self).autorun@ == old(self).autorun@.insert(id)
                &&& final(self).clients.entries@ == old(self).clients.entries@.update(
                    i,
                    (c.0, Client { next_id: (id + 1) as usize, ..c.1 }),
                )
                &&& request_views(final(self).requests.entries@) == request_views(
                    old(self).requests.entries@,
                ).push(
                    RequestView {
                        client: client_name@,
                        id,
                        method: Method::CodeAction,
                        url: url@,
                        path: path@,
                    },
                )
                &&& crate::server::same_but_requests_clients_autorun(*final(self), *old(self))
            },
    {
        let key = String::from_str(client_name);
        let kinds: Vec<String> = match self.config.get(&key) {
            Some(c) => match &c.actions_on_put {
                Some(v) => copy_strings(v),
                None => Vec::new(),
            },
            None => Vec::new(),
        };
        if kinds.len() == 0 {
            return None;
        }
        match self.send_request(client_name, url, path, Method::CodeAction) {
            Some(id) => {
                self.autorun.insert(id);
                let zero = Position { line: 0, character: 0 };
                Some(
                    Outgoing::Request {
                        client: key,
                        id,
                        method: Method::CodeAction,
                        url: String::from_str(url),
                        params: Params::CodeAction {
                            range: Range { start: zero, end: zero },
                            only: Some(kinds),
                        },
                    },
                )
            },
            None => None,
        }
    }

    /// Code actions came for the request `id` about the document `url`.
    /// Where the request was one whose results are run at once, it is so no
    /// longer and the actions are handed back to be run, in order; else they
    /// are kept for the focused window, where that shows the document.
    pub fn on_code_action(&mut self, id: &ClientId, url: &str, items: Vec<CodeActionOrCommand>) -> (r:
        Option<Vec<CodeActionOrCommand>>)
        requires
            old(self).wf(),
        ensures
            final(self).wf(),
            r is Some == old(self).autorun@.contains(id.msg_id),
            r is Some ==> {
                &&& r->0 == items
                &&& final(self).autorun@ == old(self).autorun@.remove(id.msg_id)
                &&& crate::server::same_but_autorun(*final(self), *old(self))
            },
            r is None ==> {
                &&& crate::server::same_but_hover(*final(self), *old(self))
                &&& match old(self).current_hover {
                    Some(h) => {
                        &&& final(self).current_hover is Some
                        &&& if h.url@ == url@ {
                            &&& final(self).current_hover->0@ == updated(
                                h@,
                                HoverUpdate::CodeActions(items),
                            )
                            &&& final(self).current_hover->0.up_to_date()
                        } else {
                            final(self).current_hover->0 == h
                        }
                    },
                    None => final(self).current_hover is None,
                }
            },
    {
        if self.autorun.contains(&id.msg_id) {
            self.autorun.remove(&id.msg_id);
            Some(items)
        } else {
            self.set_hover(url, HoverUpdate::CodeActions(items));
            None
        }
    }
}

/// Copies of the strings in `v`.
pub fn copy_strings(v: &Vec<String>) -> (r: Vec<String>)
    ensures
        r@ == v@,
{
    let mut r: Vec<String> = Vec::new();
    let mut i: usize = 0;
    while i < v.len()
        invariant
            i <= v.len(),
            r@ == v@.take(i as int),
        decreases v.len() - i,
    {
        r.push(v[i].clone());
        i += 1;
    }
    assert(v@.take(v@.len() as int) == v@);
    r
}

/// The position of the offset `q0` in a text with the line starts `starts`;
/// a line or a column that is too large for a position is cut down to the
/// largest.
pub open spec fn spec_position(starts: Seq<int>, q0: int) -> Position {
    let (line, col) = spec_offset_to_line(starts, q0);
    Position {
        line: if line <= u32::MAX {
            line as u32
        } else {
            u32::MAX
        },
        character: if col <= u32::MAX {
            col as u32
        } else {
            u32::MAX
        },
    }
}

impl ServerWin {
    /// The position of the offset `q0` in the text that `offsets` is the
    /// index of.
    pub fn position(offsets: &NlOffsets, q0: u64) -> (p: Position)
        ensures
            p == spec_position(offsets.starts(), q0 as int),
    {
        let (line, col) = offsets.offset_to_line(q0);
        Position {
            line: if line <= u32::MAX as u64 {
                line as u32
            } else {
                u32::MAX
            },
            character: if col <= u32::MAX as u64 {
                col as u32
            } else {
                u32::MAX
            },
        }
    }

    /// The text of the line of `body` that holds the offset `q0`.
    pub fn line(body: &str, q0: u64) -> (r: Result<String, Error>)
        ensures
            ({
                let i = spec_offset_to_line(line_starts(body@), q0 as int).0;
                match r {
                    Ok(s) => 0 <= i < lines(body@).len() && s@ == lines(body@)[i],
                    Err(e) => e == Error::NoSuchLine && !(0 <= i < lines(body@).len()),
                }
            }),
    {
        let offsets = NlOffsets::of_text(body);
        let (line, _) = offsets.offset_to_line(q0);
        let ls = split_lines(body);
        if line < ls.len() as u64 {
            assert(views(ls@)[line as int] == ls@[line as int]@);
            Ok(ls[line as usize].clone())
        } else {
            proof {
                crate::nl::lemma_line_starts_wf(body@);
                crate::nl::lemma_offset_to_line(line_starts(body@), q0 as int);
            }
            Err(Error::NoSuchLine)
        }
    }
}

} // verus!
