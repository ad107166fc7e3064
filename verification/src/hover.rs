//! What is shown for the window that has the focus: hover text, signature,
//! and the actions that a click can run.
use vstd::prelude::*;
use vstd::string::StringExecFns;

use crate::model::{CodeActionOrCommand, CodeLens, CompletionItem};
use crate::text::{byte_size, contains, str_contains, trim, trimmed};

verus! {

/// At most this many completions are offered.
pub const MAX_COMPLETIONS: usize = 10;

/// One of the actions on offer, by its place in the list it comes from.
#[derive(Clone, Copy, Debug, PartialEq, Eq, Structural)]
pub enum ActionRef {
    CodeAction(usize),
    Completion(usize),
    Lens(usize),
}

/// What is known about the focused window.
#[derive(Debug)]
pub struct WindowHover {
    pub client_name: String,
    pub url: String,
    /// The path part of `url`.
    pub path: String,
    /// The text of the line of the cursor.
    pub line: String,
    /// The word at the cursor.
    pub token: Option<String>,
    pub hover: Option<String>,
    pub signature: Option<String>,
    pub lens: Vec<CodeLens>,
    pub completion: Vec<CompletionItem>,
    pub code_actions: Vec<CodeActionOrCommand>,
    /// The actions on offer: code actions, then completions, then lenses.
    pub actions: Vec<ActionRef>,
    /// For each action the byte offset in `body` at which it starts, and at
    /// the end the length of `body` with no action.
    pub action_addrs: Vec<(usize, Option<usize>)>,
    /// The text shown: hover, signature and one line for each action.
    pub body: String,
}

/// What a [`WindowHover`] holds, the derived fields left aside.
pub struct HoverData {
    pub client_name: Seq<char>,
    pub url: Seq<char>,
    pub path: Seq<char>,
    pub line: Seq<char>,
    pub token: Option<Seq<char>>,
    pub hover: Option<Seq<char>>,
    pub signature: Option<Seq<char>>,
    pub lens: Seq<CodeLens>,
    pub completion: Seq<CompletionItem>,
    pub code_actions: Seq<CodeActionOrCommand>,
}

impl View for WindowHover {
    type V = HoverData;

    open spec fn view(&self) -> HoverData {
        HoverData {
            client_name: self.client_name@,
            url: self.url@,
            path: self.path@,
            line: self.line@,
            token: match self.token {
                Some(t) => Some(t@),
                None => None,
            },
            hover: match self.hover {
                Some(t) => Some(t@),
                None => None,
            },
            signature: match self.signature {
                Some(t) => Some(t@),
                None => None,
            },
            lens: self.lens@,
            completion: self.completion@,
            code_actions: self.code_actions@,
        }
    }
}

/// A change to the focused window's record.
#[derive(Debug)]
pub enum HoverUpdate {
    Hover(String),
    Signature(String),
    Lens(Vec<CodeLens>),
    Completion(Vec<CompletionItem>),
    /// More code actions, behind those already there.
    CodeActions(Vec<CodeActionOrCommand>),
    /// The word at the cursor: `length` characters of the line, from
    /// character `start`.
    Token { start: u32, length: u32 },
    /// Forget the code actions and the completions.
    ClearActions,
}

/// The text by which a completion is matched against the word at the cursor.
pub open spec fn filter_of(c: CompletionItem) -> Seq<char> {
    match c.filter_text {
        Some(f) => f@,
        None => c.label@,
    }
}

/// The places, among the first `k` completions, of the first
/// `MAX_COMPLETIONS` whose filter text holds `token`.
pub open spec fn matching(items: Seq<CompletionItem>, token: Seq<char>, k: nat) -> Seq<ActionRef>
    decreases k,
{
    if k == 0 {
        Seq::empty()
    } else {
        let prev = matching(items, token, (k - 1) as nat);
        if prev.len() < MAX_COMPLETIONS && contains(filter_of(items[k - 1]), token) {
            prev.push(ActionRef::Completion((k - 1) as usize))
        } else {
            prev
        }
    }
}

/// The actions on offer: every code action, the matching completions where
/// the word at the cursor is known, every lens.
pub open spec fn merged(h: HoverData) -> Seq<ActionRef> {
    Seq::new(h.code_actions.len(), |i: int| ActionRef::CodeAction(i as usize)) + (match h.token {
        Some(t) => matching(h.completion, t, h.completion.len()),
        None => Seq::empty(),
    }) + Seq::new(h.lens.len(), |i: int| ActionRef::Lens(i as usize))
}

/// The text above the actions: the hover text and the signature, each
/// trimmed and on lines of its own, with an empty line between them.
pub open spec fn head(h: HoverData) -> Seq<char> {
    let a = match h.hover {
        Some(t) => trim(t) + "\n"@,
        None => Seq::empty(),
    };
    match h.signature {
        Some(t) => (if a.len() > 0 {
            a + "\n"@
        } else {
            a
        }) + trim(t) + "\n"@,
        None => a,
    }
}

/// The text that shows one action; `first` says that nothing stands before
/// it.
pub open spec fn action_text(h: HoverData, r: ActionRef, first: bool) -> Seq<char> {
    match r {
        ActionRef::CodeAction(i) => (if first {
            Seq::empty()
        } else {
            "\n"@
        }) + "["@ + h.code_actions[i as int].spec_title() + "]"@,
        ActionRef::Completion(i) => {
            let c = h.completion[i as int];
            "\n[insert] "@ + c.label@ + ":"@ + (if c.deprecated == Some(true) {
                " DEPRECATED"@
            } else {
                Seq::empty()
            }) + (match c.kind {
                Some(k) => " ("@ + k@ + ")"@,
                None => Seq::empty(),
            }) + (match c.detail {
                Some(d) => " "@ + d@,
                None => Seq::empty(),
            })
        },
        ActionRef::Lens(_) => Seq::empty(),
    }
}

/// The text and the offsets after the first `k` of the actions `refs` have
/// been written below the head.
pub open spec fn rendered(h: HoverData, refs: Seq<ActionRef>, k: nat) -> (
    Seq<char>,
    Seq<(usize, Option<usize>)>,
)
    decreases k,
{
    if k == 0 {
        (head(h), Seq::empty())
    } else {
        let (b, a) = rendered(h, refs, (k - 1) as nat);
        let b1 = if k == 1 && b.len() > 0 {
            b + "\n"@
        } else {
            b
        };
        (
            b1 + action_text(h, refs[k - 1], b1.len() == 0),
            a.push((byte_size(b1), Some((k - 1) as usize))),
        )
    }
}

/// The offsets of all actions `refs`, closed by the length of the text.
pub open spec fn rendered_addrs(h: HoverData, refs: Seq<ActionRef>) -> Seq<
    (usize, Option<usize>),
> {
    let (b, a) = rendered(h, refs, refs.len());
    a.push((byte_size(b), None))
}

/// The word of `line` that starts at character `start` and has `length`
/// characters, as far as the line reaches.
pub open spec fn token_of(line: Seq<char>, start: int, length: int) -> Seq<char> {
    let from = if start < line.len() {
        start
    } else {
        line.len() as int
    };
    let to = if from + length < line.len() {
        from + length
    } else {
        line.len() as int
    };
    line.subrange(from, to)
}

impl WindowHover {
    /// A record for the window at `url`, served by `client_name`, with the
    /// cursor in `line`; nothing else is known yet.
    pub fn new(client_name: String, url: String, path: String, line: String) -> (h: WindowHover)
        ensures
            h@ == (HoverData {
                client_name: client_name@,
                url: url@,
                path: path@,
                line: line@,
                token: None,
                hover: None,
                signature: None,
                lens: Seq::empty(),
                completion: Seq::empty(),
                code_actions: Seq::empty(),
            }),
            h.actions@.len() == 0,
            h.action_addrs@.len() == 0,
            h.body@.len() == 0,
    {
        WindowHover {
            client_name,
            url,
            path,
            line,
            token: None,
            hover: None,
            signature: None,
            lens: Vec::new(),
            completion: Vec::new(),
            code_actions: Vec::new(),
            actions: Vec::new(),
            action_addrs: Vec::new(),
            body: String::new(),
        }
    }

    /// The places of the completions that are offered.
    fn matching_completions(&self, token: &str) -> (v: Vec<ActionRef>)
        ensures
            v@ == matching(self.completion@, token@, self.completion@.len()),
    {
        let mut v: Vec<ActionRef> = Vec::new();
        let mut i: usize = 0;
        while i < self.completion.len()
            invariant
                i <= self.completion.len(),
                v@ == matching(self.completion@, token@, i as nat),
            decreases self.completion.len() - i,
        {
            if v.len() < MAX_COMPLETIONS {
                let hit = match &self.completion[i].filter_text {
                    Some(f) => str_contains(f.as_str(), token),
                    None => str_contains(self.completion[i].label.as_str(), token),
                };
                if hit {
                    v.push(ActionRef::Completion(i));
                }
            }
            i += 1;
        }
        v
    }

    /// The actions on offer.
    fn merge_actions(&self) -> (v: Vec<ActionRef>)
        ensures
            v@ == merged(self@),
    {
        let mut v: Vec<ActionRef> = Vec::new();
        let mut i: usize = 0;
        while i < self.code_actions.len()
            invariant
                i <= self.code_actions.len(),
                v@ == Seq::new(i as nat, |j: int| ActionRef::CodeAction(j as usize)),
            decreases self.code_actions.len() - i,
        {
            v.push(ActionRef::CodeAction(i));
            i += 1;
        }
        let ghost first = v@;
        let mut second: Vec<ActionRef> = Vec::new();
        if let Some(t) = &self.token {
            second = self.matching_completions(t.as_str());
        }
        let ghost mid = second@;
        v.append(&mut second);
        let mut k: usize = 0;
        while k < self.lens.len()
            invariant
                k <= self.lens.len(),
                v@ == first + mid + Seq::new(k as nat, |j: int| ActionRef::Lens(j as usize)),
            decreases self.lens.len() - k,
        {
            v.push(ActionRef::Lens(k));
            k += 1;
        }
        v
    }

    /// The text above the actions.
    fn head_text(&self) -> (s: String)
        ensures
            s@ == head(self@),
    {
        let mut s = String::new();
        if let Some(t) = &self.hover {
            let x = trimmed(t.as_str());
            s.append(x.as_str());
            s.append("\n");
        }
        if let Some(t) = &self.signature {
            if !s.as_str().is_empty() {
                s.append("\n");
            }
            let x = trimmed(t.as_str());
            s.append(x.as_str());
            s.append("\n");
        }
        s
    }

    /// Writes the action `r` at the end of `body`.
    fn push_action(&self, body: &mut String, r: ActionRef)
        requires
            match r {
                ActionRef::CodeAction(i) => i < self.code_actions@.len(),
                ActionRef::Completion(i) => i < self.completion@.len(),
                ActionRef::Lens(i) => true,
            },
        ensures
            final(body)@ == old(body)@ + action_text(self@, r, old(body)@.len() == 0),
    {
        match r {
            ActionRef::CodeAction(i) => {
                if !body.as_str().is_empty() {
                    body.append("\n");
                }
                body.append("[");
                body.append(self.code_actions[i].title());
                body.append("]");
            },
            ActionRef::Completion(i) => {
                let c = &self.completion[i];
                body.append("\n[insert] ");
                body.append(c.label.as_str());
                body.append(":");
                if let Some(true) = c.deprecated {
                    body.append(" DEPRECATED");
                }
                if let Some(k) = &c.kind {
                    body.append(" (");
                    body.append(k.as_str());
                    body.append(")");
                }
                if let Some(d) = &c.detail {
                    body.append(" ");
                    body.append(d.as_str());
                }
            },
            ActionRef::Lens(_) => {},
        }
    }

    /// Whether every action in `refs` names an item that is there.
    pub open spec fn refs_in_range(self, refs: Seq<ActionRef>) -> bool {
        refs_in_range(self@, refs)
    }

    /// Whether `actions`, `body` and `action_addrs` are what the other fields
    /// give.
    pub open spec fn up_to_date(self) -> bool {
        &&& self.actions@ == merged(self@)
        &&& self.body@ == rendered(self@, merged(self@), merged(self@).len()).0
        &&& self.action_addrs@ == rendered_addrs(self@, merged(self@))
    }

    /// Brings `actions`, `body` and `action_addrs` up to date with the other
    /// fields.
    pub fn refresh(&mut self)
        ensures
            final(self)@ == old(self)@,
            final(self).up_to_date(),
    {
        let actions = self.merge_actions();
        proof {
            lemma_merged_in_range(self@);
        }
        let mut body = self.head_text();
        let mut addrs: Vec<(usize, Option<usize>)> = Vec::new();
        let mut k: usize = 0;
        while k < actions.len()
            invariant
                k <= actions.len(),
                self.refs_in_range(actions@),
                (body@, addrs@) == rendered(self@, actions@, k as nat),
            decreases actions.len() - k,
        {
            if k == 0 && !body.as_str().is_empty() {
                body.append("\n");
            }
            addrs.push((body.as_str().len(), Some(k)));
            let r = actions[k];
            assert(r == actions@[k as int]);
            self.push_action(&mut body, r);
            k += 1;
        }
        addrs.push((body.as_str().len(), None));
        self.actions = actions;
        self.body = body;
        self.action_addrs = addrs;
    }

    /// Applies `update` and brings the derived fields up to date.
    pub fn apply(&mut self, update: HoverUpdate)
        ensures
            final(self)@ == updated(old(self)@, update),
            final(self).up_to_date(),
    {
        match update {
            HoverUpdate::Hover(s) => {
                self.hover = Some(s);
            },
            HoverUpdate::Signature(s) => {
                self.signature = Some(s);
            },
            HoverUpdate::Lens(v) => {
                self.lens = v;
            },
            HoverUpdate::Completion(v) => {
                self.completion = v;
            },
            HoverUpdate::CodeActions(mut v) => {
                self.code_actions.append(&mut v);
            },
            HoverUpdate::Token { start, length } => {
                let line = crate::text::chars_of(self.line.as_str());
                let from: usize = if (start as usize) < line.len() {
                    start as usize
                } else {
                    line.len()
                };
                let to: usize = if (length as usize) < line.len() - from {
                    from + length as usize
                } else {
                    line.len()
                };
                self.token = Some(crate::text::string_of(&line[from..to]));
            },
            HoverUpdate::ClearActions => {
                self.code_actions.clear();
                self.completion.clear();
            },
        }
        self.refresh();
    }
}

/// Whether every action in `refs` names an item that is there.
pub open spec fn refs_in_range(h: HoverData, refs: Seq<ActionRef>) -> bool {
    forall|k: int|
        0 <= k < refs.len() ==> match #[trigger] refs[k] {
            ActionRef::CodeAction(i) => i < h.code_actions.len(),
            ActionRef::Completion(i) => i < h.completion.len(),
            ActionRef::Lens(i) => i < h.lens.len(),
        }
}

/// What is held after `update`.
pub open spec fn updated(h: HoverData, update: HoverUpdate) -> HoverData {
    match update {
        HoverUpdate::Hover(s) => HoverData { hover: Some(s@), ..h },
        HoverUpdate::Signature(s) => HoverData { signature: Some(s@), ..h },
        HoverUpdate::Lens(v) => HoverData { lens: v@, ..h },
        HoverUpdate::Completion(v) => HoverData { completion: v@, ..h },
        HoverUpdate::CodeActions(v) => HoverData { code_actions: h.code_actions + v@, ..h },
        HoverUpdate::Token { start, length } => HoverData {
            token: Some(token_of(h.line, start as int, length as int)),
            ..h
        },
        HoverUpdate::ClearActions => HoverData {
            code_actions: Seq::empty(),
            completion: Seq::empty(),
            ..h
        },
    }
}

pub proof fn lemma_matching_in_range(items: Seq<CompletionItem>, token: Seq<char>, k: nat)
    requires
        k <= items.len(),
    ensures
        matching(items, token, k).len() <= MAX_COMPLETIONS,
        forall|j: int|
            0 <= j < matching(items, token, k).len() ==> match #[trigger] matching(
                items,
                token,
                k,
            )[j] {
                ActionRef::Completion(i) => i < k,
                _ => false,
            },
    decreases k,
{
    if k > 0 {
        lemma_matching_in_range(items, token, (k - 1) as nat);
    }
}

pub proof fn lemma_merged_in_range(h: HoverData)
    ensures
        refs_in_range(h, merged(h)),
{
    if let Some(t) = h.token {
        lemma_matching_in_range(h.completion, t, h.completion.len());
    }
}

} // verus!
