//! Which windows the servers know: taking up new ones and letting go of
//! those that are gone.
use std::collections::HashMap;

use vstd::prelude::*;
use vstd::string::StringExecFns;

use crate::Error;
use crate::acme::WinInfo;
use crate::lsp::Client;
use crate::model::Capabilities;
use crate::outside::{regex_is_match, regex_match, url_parse, url_parts};
use crate::server::{Outgoing, Server, ServerWin, listed};
use crate::sort::{stable_sort, stable_sorted};
use crate::table::{inserted, position, removed};

verus! {

broadcast use vstd::std_specs::hash::group_hash_axioms;

/// A window of the editor's list with the server that takes its file, if one
/// does, and the address and path of its file, if the name gives one.
#[derive(Debug, PartialEq, Eq)]
pub struct Candidate {
    pub id: usize,
    pub name: String,
    pub client: Option<String>,
    pub url: Option<(String, String)>,
}

/// What is to be done after the windows have been gone through: the windows
/// whose text is to be sent as opened, and the messages that close the
/// documents of the windows that are gone.
#[derive(Debug, PartialEq, Eq)]
pub struct WindowsPlan {
    pub open: Vec<usize>,
    pub close: Vec<Outgoing>,
}

/// The index of the first server, among the first `k`, that takes the file
/// and has said what it can do. Of each pair the first part says that the
/// server takes the file, the second that it has said what it can do.
pub open spec fn spec_pick(takes: Seq<(bool, bool)>, k: nat) -> Option<int>
    decreases k,
{
    if k == 0 {
        None
    } else {
        match spec_pick(takes, (k - 1) as nat) {
            Some(i) => Some(i),
            None => if takes[k - 1].0 && takes[k - 1].1 {
                Some(k - 1)
            } else {
                None
            },
        }
    }
}

/// The index of the first server that takes the file and has said what it
/// can do.
pub fn pick_owner(takes: &Vec<(bool, bool)>) -> (r: Option<usize>)
    ensures
        match r {
            Some(i) => spec_pick(takes@, takes@.len()) == Some(i as int) && i < takes@.len(),
            None => spec_pick(takes@, takes@.len()) is None,
        },
{
    let mut i: usize = 0;
    while i < takes.len()
        invariant
            i <= takes.len(),
            spec_pick(takes@, i as nat) is None,
        decreases takes.len() - i,
    {
        if takes[i].0 && takes[i].1 {
            proof {
                lemma_pick_stays(takes@, (i + 1) as nat, takes@.len());
            }
            return Some(i);
        }
        i += 1;
    }
    None
}

/// Once a server is picked, later servers do not change the pick.
pub proof fn lemma_pick_stays(takes: Seq<(bool, bool)>, k: nat, n: nat)
    requires
        k <= n,
        spec_pick(takes, k) is Some,
    ensures
        spec_pick(takes, n) == spec_pick(takes, k),
    decreases n,
{
    if n > k {
        lemma_pick_stays(takes, k, (n - 1) as nat);
    }
}

/// For each server whether its pattern matches `name` and whether it has
/// said what it can do.
pub open spec fn spec_takes(
    clients: Seq<(String, Client)>,
    caps: Seq<(String, Capabilities)>,
    name: Seq<char>,
) -> Seq<(bool, bool)> {
    Seq::new(
        clients.len(),
        |i: int|
            (
                regex_is_match(clients[i].1.files@, name) == Some(true),
                position(caps, clients[i].1.name@) < caps.len(),
            ),
    )
}

/// The name of the server that takes the file `name`: the first whose
/// pattern matches the name and that has said what it can do.
pub open spec fn spec_owner(
    clients: Seq<(String, Client)>,
    caps: Seq<(String, Capabilities)>,
    name: Seq<char>,
) -> Option<Seq<char>> {
    match spec_pick(spec_takes(clients, caps, name), clients.len()) {
        Some(i) => Some(clients[i].1.name@),
        None => None,
    }
}

/// The address that stands for the file `name`.
pub open spec fn file_address(name: Seq<char>) -> Seq<char> {
    "file://"@ + name
}

/// What is known while the windows are gone through.
#[verifier::ext_equal]
pub struct Tracking {
    /// The windows known before that no window of the list has claimed.
    pub old_ws: Map<usize, ServerWin>,
    /// The windows known from now on.
    pub new_ws: Map<usize, ServerWin>,
    pub names: Seq<(String, usize)>,
    pub files: Seq<(String, String)>,
    pub opened: Seq<(String, ())>,
    /// The windows whose text is to be sent as opened.
    pub to_open: Seq<usize>,
}

/// Takes up one window of the list. A window that no server takes is passed
/// over. A window that is known stays known as it is. Another window is new:
/// it starts at version 1, and where no window has its document open its
/// text is to be sent.
pub open spec fn track_one(t: Tracking, c: Candidate) -> Tracking {
    match c.client {
        None => t,
        Some(client) => {
            if t.old_ws.contains_key(c.id) {
                Tracking {
                    old_ws: t.old_ws.remove(c.id),
                    new_ws: t.new_ws.insert(c.id, t.old_ws[c.id]),
                    names: t.names.push((c.name, c.id)),
                    files: inserted(t.files, c.name, client),
                    ..t
                }
            } else {
                match c.url {
                    None => t,
                    Some(u) => {
                        let w = ServerWin { id: c.id, url: u.0, path: u.1, version: 1, client };
                        let fresh = !(position(t.opened, u.0@) < t.opened.len());
                        Tracking {
                            old_ws: t.old_ws,
                            new_ws: t.new_ws.insert(c.id, w),
                            names: t.names.push((c.name, c.id)),
                            files: inserted(t.files, c.name, client),
                            opened: if fresh {
                                t.opened.push((u.0, ()))
                            } else {
                                t.opened
                            },
                            to_open: if fresh {
                                t.to_open.push(c.id)
                            } else {
                                t.to_open
                            },
                        }
                    },
                }
            }
        },
    }
}

/// Whether one of the first `k` windows of the list `cs` is new to the
/// servers, has a server that takes it, and has a name that gives no
/// address.
pub open spec fn lacks_address(s: Server, cs: Seq<Candidate>, k: nat) -> bool
    decreases k,
{
    if k == 0 {
        false
    } else {
        let c = cs[k - 1];
        lacks_address(s, cs, (k - 1) as nat) || (c.client is Some && c.url is None
            && !s.ws@.contains_key(c.id))
    }
}

/// Takes up the first `k` windows of the list `cs`, in order.
pub open spec fn track_all(t: Tracking, cs: Seq<Candidate>, k: nat) -> Tracking
    decreases k,
{
    if k == 0 {
        t
    } else {
        track_one(track_all(t, cs, (k - 1) as nat), cs[k - 1])
    }
}

/// The state before any window of the list has been taken up.
pub open spec fn tracking_start(s: Server) -> Tracking {
    Tracking {
        old_ws: s.ws@,
        new_ws: Map::empty(),
        names: Seq::empty(),
        files: Seq::empty(),
        opened: s.opened_urls.entries@,
        to_open: Seq::empty(),
    }
}

/// What is known while the windows that were known are let go.
#[verifier::ext_equal]
pub struct Letting {
    /// The windows that no window of the list has claimed and that are not
    /// let go yet.
    pub left: Map<usize, ServerWin>,
    /// The open documents.
    pub opened: Seq<(String, ())>,
    /// The windows that were let go, in order.
    pub gone: Seq<(usize, ServerWin)>,
}

/// Lets go of the window `id`, where it is left: its document is open no
/// longer.
pub open spec fn let_go_one(l: Letting, id: usize) -> Letting {
    if l.left.contains_key(id) {
        Letting {
            left: l.left.remove(id),
            opened: removed(l.opened, l.left[id].url@),
            gone: l.gone.push((id, l.left[id])),
        }
    } else {
        l
    }
}

/// Lets go of the windows that are left among the first `k` of the windows
/// by name `names`, in order.
pub open spec fn let_go(l: Letting, names: Seq<(String, usize)>, k: nat) -> Letting
    decreases k,
{
    if k == 0 {
        l
    } else {
        let_go_one(let_go(l, names, (k - 1) as nat), names[k - 1].1)
    }
}

/// The state before any window is let go: `left` are the windows that no
/// window of the list has claimed.
pub open spec fn letting_start(t: Tracking) -> Letting {
    Letting { left: t.old_ws, opened: t.opened, gone: Seq::empty() }
}

/// One message for each window that is gone, closing its document.
pub open spec fn closes(gone: Seq<(usize, ServerWin)>) -> Seq<Outgoing> {
    Seq::new(
        gone.len(),
        |i: int| Outgoing::DidClose { client: gone[i].1.client, url: gone[i].1.url },
    )
}

/// Whether `cs` is the editor's list `wins` in order of name and id, each
/// window with the server that takes it and the address of its file.
pub open spec fn candidates_of(s: Server, wins: Seq<WinInfo>, cs: Seq<Candidate>) -> bool {
    let sorted = stable_sorted(wins);
    &&& cs.len() == sorted.len()
    &&& forall|i: int|
        0 <= i < cs.len() ==> {
            let c = #[trigger] cs[i];
            &&& c.id == sorted[i].id
            &&& c.name@ == sorted[i].name@
            &&& match (c.client, spec_owner(s.clients.entries@, s.capabilities.entries@, c.name@)) {
                (Some(a), Some(b)) => a@ == b,
                (None, None) => true,
                _ => false,
            }
            &&& match (c.url, url_parts(file_address(c.name@))) {
                (Some(a), Some(b)) => a.0@ == b.0 && a.1@ == b.1,
                (None, None) => true,
                _ => false,
            }
        }
}

/// Whether `after` and `plan` are what taking up the windows `cs` makes of
/// `before`.
pub open spec fn taken_up(before: Server, cs: Seq<Candidate>, after: Server, plan: WindowsPlan) -> bool {
    let t = track_all(tracking_start(before), cs, cs.len());
    let l = let_go(letting_start(t), before.names@, before.names@.len());
    &&& after.ws@ == t.new_ws
    &&& after.names@ == t.names
    &&& after.files.entries@ == t.files
    &&& after.opened_urls.entries@ == l.opened
    &&& plan.open@ == t.to_open
    &&& plan.close@ == closes(l.gone)
    &&& after.config == before.config
    &&& after.addr == before.addr
    &&& after.body == before.body
    &&& after.output == before.output
    &&& after.focus == before.focus
    &&& after.progress == before.progress
    &&& after.diags == before.diags
    &&& after.requests == before.requests
    &&& after.current_hover == before.current_hover
    &&& after.clients == before.clients
    &&& after.capabilities == before.capabilities
    &&& after.autorun == before.autorun
}

/// Once a window lacks an address, the windows behind it change nothing.
pub proof fn lemma_lacks_address_stays(s: Server, cs: Seq<Candidate>, k: nat, n: nat)
    requires
        k <= n,
        lacks_address(s, cs, k),
    ensures
        lacks_address(s, cs, n),
    decreases n,
{
    if n > k {
        lemma_lacks_address_stays(s, cs, k, (n - 1) as nat);
    }
}

/// A window that was known and is not among the first `k` windows of the
/// list is claimed by none of them: it is left as it was, and it is not
/// among the windows known from now on.
pub proof fn lemma_unclaimed(t0: Tracking, cs: Seq<Candidate>, k: nat, id: usize)
    requires
        k <= cs.len(),
        t0.old_ws.contains_key(id),
        !t0.new_ws.contains_key(id),
        forall|i: int| 0 <= i < k ==> (#[trigger] cs[i]).id != id,
    ensures
        ({
            let t = track_all(t0, cs, k);
            &&& t.old_ws.contains_key(id)
            &&& t.old_ws[id] == t0.old_ws[id]
            &&& !t.new_ws.contains_key(id)
        }),
    decreases k,
{
    if k > 0 {
        lemma_unclaimed(t0, cs, (k - 1) as nat, id);
        assert(cs[k - 1].id != id);
    }
}

/// The windows that are let go and the windows that are left are the
/// windows that were left at the start, each once and as it was; a window
/// among the first `k` by name is left no longer.
pub proof fn lemma_let_go(l0: Letting, names: Seq<(String, usize)>, k: nat)
    requires
        k <= names.len(),
        l0.gone.len() == 0,
    ensures
        ({
            let l = let_go(l0, names, k);
            &&& forall|j: int|
                0 <= j < l.gone.len() ==> {
                    let g = #[trigger] l.gone[j];
                    l0.left.contains_key(g.0) && g.1 == l0.left[g.0] && !l.left.contains_key(g.0)
                }
            &&& forall|i: int, j: int|
                0 <= i < j < l.gone.len() ==> (#[trigger] l.gone[i]).0 != (#[trigger] l.gone[j]).0
            &&& forall|id: usize| #[trigger]
                l.left.contains_key(id) ==> l0.left.contains_key(id) && l.left[id] == l0.left[id]
            &&& forall|id: usize| #[trigger]
                l0.left.contains_key(id) ==> l.left.contains_key(id) || exists|j: int|
                    0 <= j < l.gone.len() && (#[trigger] l.gone[j]).0 == id
            &&& forall|i: int| 0 <= i < k ==> !l.left.contains_key((#[trigger] names[i]).1)
        }),
    decreases k,
{
    if k > 0 {
        lemma_let_go(l0, names, (k - 1) as nat);
        let l1 = let_go(l0, names, (k - 1) as nat);
        let l = let_go(l0, names, k);
        let id = names[k - 1].1;
        if l1.left.contains_key(id) {
            let n = l1.gone.len() as int;
            assert(l.gone[n] == (id, l1.left[id]));
            assert forall|x: usize| #[trigger]
                l0.left.contains_key(x) implies l.left.contains_key(x) || exists|j: int|
                0 <= j < l.gone.len() && (#[trigger] l.gone[j]).0 == x by {
                if x == id {
                    assert(l.gone[n].0 == x);
                } else if !l1.left.contains_key(x) {
                    let j = choose|j: int| 0 <= j < l1.gone.len() && (#[trigger] l1.gone[j]).0 == x;
                    assert(l.gone[j].0 == x);
                }
            }
            assert forall|j: int| 0 <= j < l.gone.len() implies ({
                let g = #[trigger] l.gone[j];
                l0.left.contains_key(g.0) && g.1 == l0.left[g.0] && !l.left.contains_key(g.0)
            }) by {
                if j < n {
                    assert(l.gone[j] == l1.gone[j]);
                }
            }
            assert forall|i: int, j: int| 0 <= i < j < l.gone.len() implies (#[trigger] l.gone[i]).0
                != (#[trigger] l.gone[j]).0 by {
                assert(l.gone[i] == l1.gone[i]);
                if j < n {
                    assert(l.gone[j] == l1.gone[j]);
                }
            }
        }
    }
}

/// A window that was known and is not in the editor's list is let go exactly
/// once: it is among the windows that are gone, as it was; no other window
/// that is gone has its id; and it is not among the windows known from now
/// on.
pub proof fn lemma_gone_once(before: Server, cs: Seq<Candidate>, id: usize)
    requires
        before.wf(),
        before.ws@.contains_key(id),
        forall|i: int| 0 <= i < cs.len() ==> (#[trigger] cs[i]).id != id,
    ensures
        ({
            let t = track_all(tracking_start(before), cs, cs.len());
            let l = let_go(letting_start(t), before.names@, before.names@.len());
            &&& !t.new_ws.contains_key(id)
            &&& exists|j: int|
                0 <= j < l.gone.len() && #[trigger] l.gone[j] == (id, before.ws@[id]) && forall|i: int|
                    0 <= i < l.gone.len() && i != j ==> (#[trigger] l.gone[i]).0 != id
        }),
{
    let t = track_all(tracking_start(before), cs, cs.len());
    let l = let_go(letting_start(t), before.names@, before.names@.len());
    lemma_unclaimed(tracking_start(before), cs, cs.len(), id);
    lemma_let_go(letting_start(t), before.names@, before.names@.len());
    let l0 = letting_start(t);
    assert(l0.left.contains_key(id));
    assert(listed(before.names@, id));
    let i = choose|i: int| 0 <= i < before.names@.len() && (#[trigger] before.names@[i]).1 == id;
    assert(!l.left.contains_key(before.names@[i].1));
    assert(!l.left.contains_key(id));
    let j = choose|j: int| 0 <= j < l.gone.len() && (#[trigger] l.gone[j]).0 == id;
    assert(l.gone[j].1 == l0.left[l.gone[j].0]);
    assert(l.gone[j] == (id, before.ws@[id]));
    assert forall|i: int| 0 <= i < l.gone.len() && i != j implies (#[trigger] l.gone[i]).0 != id by {
        if i < j {
            assert(l.gone[i].0 != l.gone[j].0);
        } else {
            assert(l.gone[j].0 != l.gone[i].0);
        }
    }
}

impl Server {
    /// The name of the server that takes the file `name`.
    pub fn owner(&self, name: &str) -> (r: Option<String>)
        requires
            self.wf(),
        ensures
            match (r, spec_owner(self.clients.entries@, self.capabilities.entries@, name@)) {
                (Some(a), Some(b)) => a@ == b,
                (None, None) => true,
                _ => false,
            },
    {
        let mut takes: Vec<(bool, bool)> = Vec::new();
        let mut i: usize = 0;
        while i < self.clients.entries.len()
            invariant
                i <= self.clients.entries.len(),
                takes@ == spec_takes(self.clients.entries@, self.capabilities.entries@, name@).take(
                    i as int,
                ),
            decreases self.clients.entries.len() - i,
        {
            let c = &self.clients.entries[i].1;
            let m = match regex_match(c.files.as_str(), name) {
                Some(true) => true,
                _ => false,
            };
            let known = self.capabilities.contains_key(&c.name);
            takes.push((m, known));
            i += 1;
        }
        assert(takes@ == spec_takes(self.clients.entries@, self.capabilities.entries@, name@));
        match pick_owner(&takes) {
            Some(k) => Some(self.clients.entries[k].1.name.clone()),
            None => None,
        }
    }

    /// The editor's list `wins` in order of name and id, each window with
    /// the server that takes it and the address of its file.
    pub fn candidates(&self, wins: Vec<WinInfo>) -> (cs: Vec<Candidate>)
        requires
            self.wf(),
        ensures
            candidates_of(*self, wins@, cs@),
    {
        let sorted = stable_sort(wins);
        let mut cs: Vec<Candidate> = Vec::new();
        let mut i: usize = 0;
        while i < sorted.len()
            invariant
                i <= sorted.len(),
                self.wf(),
                cs@.len() == i,
                forall|j: int|
                    0 <= j < i ==> {
                        let c = #[trigger] cs@[j];
                        &&& c.id == sorted@[j].id
                        &&& c.name@ == sorted@[j].name@
                        &&& match (
                            c.client,
                            spec_owner(self.clients.entries@, self.capabilities.entries@, c.name@),
                        ) {
                            (Some(a), Some(b)) => a@ == b,
                            (None, None) => true,
                            _ => false,
                        }
                        &&& match (c.url, url_parts(file_address(c.name@))) {
                            (Some(a), Some(b)) => a.0@ == b.0 && a.1@ == b.1,
                            (None, None) => true,
                            _ => false,
                        }
                    },
            decreases sorted.len() - i,
        {
            let name = sorted[i].name.clone();
            let client = self.owner(name.as_str());
            let mut address = String::from_str("file://");
            address.append(name.as_str());
            let url = url_parse(address.as_str());
            cs.push(Candidate { id: sorted[i].id, name, client, url });
            i += 1;
        }
        cs
    }

    /// Takes up the windows `cs` in order and lets go of the windows that
    /// are not among them. Nothing is done where a new window has a name
    /// that gives no address.
    pub fn track(&mut self, cs: &Vec<Candidate>) -> (r: Result<WindowsPlan, Error>)
        requires
            old(self).wf(),
        ensures
            final(self).wf(),
            match r {
                Ok(plan) => !lacks_address(*old(self), cs@, cs@.len()) && taken_up(
                    *old(self),
                    cs@,
                    *final(self),
                    plan,
                ),
                Err(e) => e == Error::BadUrl && lacks_address(*old(self), cs@, cs@.len())
                    && *final(self) == *old(self),
            },
    {
        let mut j: usize = 0;
        while j < cs.len()
            invariant
                j <= cs.len(),
                *self == *old(self),
                self.wf(),
                !lacks_address(*self, cs@, j as nat),
            decreases cs.len() - j,
        {
            let c = &cs[j];
            if c.client.is_some() && c.url.is_none() && !self.ws.contains_key(&c.id) {
                proof {
                    lemma_lacks_address_stays(*self, cs@, (j + 1) as nat, cs@.len());
                }
                return Err(Error::BadUrl);
            }
            j += 1;
        }
        let mut new_ws: HashMap<usize, ServerWin> = HashMap::new();
        let mut names: Vec<(String, usize)> = Vec::new();
        let mut open: Vec<usize> = Vec::new();
        self.files.clear();
        let mut i: usize = 0;
        while i < cs.len()
            invariant
                i <= cs.len(),
                self.wf(),
                forall|id: usize| #[trigger] new_ws@.contains_key(id) ==> listed(names@, id),
                (Tracking {
                    old_ws: self.ws@,
                    new_ws: new_ws@,
                    names: names@,
                    files: self.files.entries@,
                    opened: self.opened_urls.entries@,
                    to_open: open@,
                }) =~= track_all(tracking_start(*old(self)), cs@, i as nat),
                self.names == old(self).names,
                self.config == old(self).config,
                self.addr == old(self).addr,
                self.body == old(self).body,
                self.output == old(self).output,
                self.focus == old(self).focus,
                self.progress == old(self).progress,
                self.diags == old(self).diags,
                self.requests == old(self).requests,
                self.current_hover == old(self).current_hover,
                self.clients == old(self).clients,
                self.capabilities == old(self).capabilities,
                self.autorun == old(self).autorun,
            decreases cs.len() - i,
        {
            let c = &cs[i];
            let ghost names0 = names@;
            if let Some(client) = &c.client {
                match self.ws.remove(&c.id) {
                    Some(w) => {
                        new_ws.insert(c.id, w);
                        names.push((c.name.clone(), c.id));
                        self.files.insert(c.name.clone(), client.clone());
                    },
                    None => {
                        if let Some(u) = &c.url {
                            let w = ServerWin {
                                id: c.id,
                                url: u.0.clone(),
                                path: u.1.clone(),
                                version: 1,
                                client: client.clone(),
                            };
                            if !self.opened_urls.contains_key(&u.0) {
                                self.opened_urls.insert(u.0.clone(), ());
                                open.push(c.id);
                            }
                            new_ws.insert(c.id, w);
                            names.push((c.name.clone(), c.id));
                            self.files.insert(c.name.clone(), client.clone());
                        }
                    },
                }
            }
            proof {
                assert forall|id: usize| #[trigger] new_ws@.contains_key(id) implies listed(
                    names@,
                    id,
                ) by {
                    if names@.len() > names0.len() {
                        if id == c.id {
                            assert(names@[names0.len() as int].1 == id);
                        } else {
                            let q = choose|q: int| 0 <= q < names0.len() && (#[trigger] names0[q]).1 == id;
                            assert(names@[q].1 == id);
                        }
                    }
                }
            }
            i += 1;
        }
        let ghost t = track_all(tracking_start(*old(self)), cs@, cs@.len());
        let mut gone: Ghost<Seq<(usize, ServerWin)>> = Ghost(Seq::empty());
        let mut close: Vec<Outgoing> = Vec::new();
        let mut k: usize = 0;
        while k < self.names.len()
            invariant
                k <= self.names.len(),
                self.wf(),
                forall|id: usize| #[trigger] new_ws@.contains_key(id) ==> listed(names@, id),
                (Letting { left: self.ws@, opened: self.opened_urls.entries@, gone: gone@ }) =~= let_go(
                    letting_start(t),
                    self.names@,
                    k as nat,
                ),
                close@ == closes(gone@),
                new_ws@ == t.new_ws,
                names@ == t.names,
                open@ == t.to_open,
                self.files.entries@ == t.files,
                self.names == old(self).names,
                self.config == old(self).config,
                self.addr == old(self).addr,
                self.body == old(self).body,
                self.output == old(self).output,
                self.focus == old(self).focus,
                self.progress == old(self).progress,
                self.diags == old(self).diags,
                self.requests == old(self).requests,
                self.current_hover == old(self).current_hover,
                self.clients == old(self).clients,
                self.capabilities == old(self).capabilities,
                self.autorun == old(self).autorun,
            decreases self.names.len() - k,
        {
            let id = self.names[k].1;
            if let Some(w) = self.ws.remove(&id) {
                self.opened_urls.remove(&w.url);
                proof {
                    gone@ = gone@.push((id, w));
                }
                close.push(Outgoing::DidClose { client: w.client, url: w.url });
                assert(close@ =~= closes(gone@));
            }
            k += 1;
        }
        self.ws = new_ws;
        self.names = names;
        Ok(WindowsPlan { open, close })
    }

    /// Brings the windows that the servers know into line with the editor's
    /// list `wins`.
    pub fn sync_windows(&mut self, wins: Vec<WinInfo>) -> (r: Result<WindowsPlan, Error>)
        requires
            old(self).wf(),
        ensures
            final(self).wf(),
            exists|cs: Seq<Candidate>|
                #![trigger lacks_address(*old(self), cs, cs.len())]
                candidates_of(*old(self), wins@, cs) && match r {
                    Ok(plan) => !lacks_address(*old(self), cs, cs.len()) && taken_up(
                        *old(self),
                        cs,
                        *final(self),
                        plan,
                    ),
                    Err(e) => e == Error::BadUrl && lacks_address(*old(self), cs, cs.len())
                        && *final(self) == *old(self),
                },
    {
        let cs = self.candidates(wins);
        self.track(&cs)
    }

    /// The text of the new window `wid` is `text`: the window's version grows
    /// by one and the text goes to its server as an opened document.
    pub fn did_open(&mut self, wid: usize, text: String) -> (r: Option<Outgoing>)
        requires
            old(self).wf(),
        ensures
            final(self).wf(),
            r is Some == (old(self).ws@.contains_key(wid) && old(self).ws@[wid].version < i32::MAX),
            r is None ==> *final(self) == *old(self),
            r is Some ==> {
                let w = old(self).ws@[wid];
                &&& r->0 == (Outgoing::DidOpen {
                    client: w.client,
                    url: w.url,
                    version: (w.version + 1) as i32,
                    text,
                })
                &&& final(self).ws@ == old(self).ws@.insert(
                    wid,
                    ServerWin { version: (w.version + 1) as i32, ..w },
                )
            },
            crate::server::same_but_ws(*final(self), *old(self)),
    {
        match self.did_change(wid, text) {
            Some(Outgoing::DidChange { client, url, version, text }) => Some(
                Outgoing::DidOpen { client, url, version, text },
            ),
            _ => None,
        }
    }
}

} // verus!
