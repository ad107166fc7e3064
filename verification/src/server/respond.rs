//! What the coordinator makes of the servers' responses and notifications.
use vstd::prelude::*;
use vstd::string::StringExecFns;

use crate::Error;
use crate::model::Location;
use crate::server::{Server, WDProgress};
use crate::sort::{stable_sort, stable_sorted};
use crate::table::{lemma_inserted_sets, removed, set_at_key};
use crate::text::{
    decimal, join, join_strings, lines, push_decimal, split_lines, str_eq, trim, trimmed, views,
};

verus! {

/// At most this many diagnostics of a file are shown.
pub const MAX_DIAGNOSTICS: usize = 5;

/// The answer to a request for a definition, an implementation or a type
/// definition.
#[derive(Debug)]
pub enum GotoResponse {
    Scalar,
    Array(Vec<Location>),
    Link,
}

/// The contents of a hover.
#[derive(Debug)]
pub enum HoverContents {
    Scalar,
    /// The texts of the marked strings.
    Array(Vec<String>),
    /// The text of the markup.
    Markup(String),
}

/// The documentation of a signature.
#[derive(Debug)]
pub enum Documentation {
    String(String),
    MarkupContent(String),
}

/// A signature of a function.
#[derive(Debug)]
pub struct Signature {
    pub label: String,
    pub documentation: Option<Documentation>,
}

/// The answer to a request for signature help.
#[derive(Debug)]
pub struct SignatureHelp {
    pub signatures: Vec<Signature>,
    pub active_signature: Option<u32>,
}

/// A symbol of a document, from a flat list. `kind` is the name of the
/// symbol's kind.
#[derive(Debug)]
pub struct SymbolInformation {
    pub name: String,
    pub kind: String,
    pub is_variable: bool,
    pub container_name: Option<String>,
    pub location: Location,
}

/// One diagnostic of a file. `severity` is the name of its severity.
#[derive(Debug)]
pub struct Diagnostic {
    pub message: String,
    pub line: u32,
    pub severity: Option<String>,
}

/// The text that shows a location: path, colon, and the number of the line,
/// counted from 1.
pub open spec fn spec_location_to_plumb(l: Location) -> Seq<char> {
    l.path@ + ":"@ + decimal((l.range.start.line + 1) as nat)
}

/// The text that shows a location.
pub fn location_to_plumb(l: &Location) -> (s: String)
    ensures
        s@ == spec_location_to_plumb(*l),
{
    let mut s = l.path.clone();
    s.append(":");
    push_decimal(&mut s, l.range.start.line as u64 + 1);
    s
}

/// The location to show for the answer `goto`: the first of its locations,
/// if it has one. Answers in another form are not supported.
pub fn goto_definition(goto: &GotoResponse) -> (r: Result<Option<String>, Error>)
    ensures
        match *goto {
            GotoResponse::Array(locs) => match r {
                Ok(Some(s)) => locs@.len() > 0 && s@ == spec_location_to_plumb(locs@[0]),
                Ok(None) => locs@.len() == 0,
                Err(_) => false,
            },
            _ => r == Err::<Option<String>, Error>(Error::Unsupported),
        },
{
    match goto {
        GotoResponse::Array(locs) => {
            if locs.len() == 0 {
                Ok(None)
            } else {
                Ok(Some(location_to_plumb(&locs[0])))
            }
        },
        _ => Err(Error::Unsupported),
    }
}

/// The text of a hover: the marked strings on lines of their own, or the
/// markup; trimmed in both cases.
pub open spec fn spec_hover_text(c: HoverContents) -> Option<Seq<char>> {
    match c {
        HoverContents::Array(v) => Some(trim(join(views(v@), "\n"@, v@.len()))),
        HoverContents::Markup(s) => Some(trim(s@)),
        HoverContents::Scalar => None,
    }
}

/// The text of a hover. A hover of one marked string is not supported.
pub fn hover_text(c: &HoverContents) -> (r: Result<String, Error>)
    ensures
        match r {
            Ok(s) => spec_hover_text(*c) == Some(s@),
            Err(e) => e == Error::Unsupported && spec_hover_text(*c) is None,
        },
{
    match c {
        HoverContents::Array(v) => {
            let j = join_strings(v, "\n");
            Ok(trimmed(j.as_str()))
        },
        HoverContents::Markup(s) => Ok(trimmed(s.as_str())),
        HoverContents::Scalar => Err(Error::Unsupported),
    }
}

/// The texts that show the first `k` of `locs`.
pub open spec fn plumb_lines(locs: Seq<Location>, k: nat) -> Seq<Seq<char>>
    decreases k,
{
    if k == 0 {
        Seq::empty()
    } else {
        plumb_lines(locs, (k - 1) as nat).push(spec_location_to_plumb(locs[k - 1]))
    }
}

/// The output for a list of references: the locations in order, one on each
/// line.
pub open spec fn spec_references_output(locs: Seq<Location>) -> Seq<char> {
    let sorted = stable_sorted(locs);
    join(plumb_lines(sorted, sorted.len()), "\n"@, sorted.len())
}

/// The output for a list of references; `None` for an empty list.
pub fn references_output(locs: Vec<Location>) -> (r: Option<String>)
    ensures
        match r {
            Some(s) => locs@.len() > 0 && s@ == spec_references_output(locs@),
            None => locs@.len() == 0,
        },
{
    proof {
        crate::sort::lemma_stable_sorted(locs@);
    }
    let sorted = stable_sort(locs);
    let mut o: Vec<String> = Vec::new();
    let mut i: usize = 0;
    assert(views(o@) == Seq::<Seq<char>>::empty());
    while i < sorted.len()
        invariant
            i <= sorted.len(),
            o@.len() == i,
            views(o@) == plumb_lines(sorted@, i as nat),
        decreases sorted.len() - i,
    {
        let s = location_to_plumb(&sorted[i]);
        let ghost before = o@;
        o.push(s);
        assert(views(o@) == views(before).push(s@));
        i += 1;
    }
    if o.len() > 0 {
        Some(join_strings(&o, "\n"))
    } else {
        None
    }
}

/// The text of a documentation.
pub fn extract_doc(d: &Documentation) -> (s: &str)
    ensures
        s@ == match *d {
            Documentation::String(t) => t@,
            Documentation::MarkupContent(t) => t@,
        },
{
    match d {
        Documentation::String(s) => s.as_str(),
        Documentation::MarkupContent(c) => c.as_str(),
    }
}

/// The index of the signature that is shown: the active one, and the first
/// where none is active.
pub open spec fn shown_signature(help: SignatureHelp) -> int {
    match help.active_signature {
        Some(i) => i as int,
        None => 0,
    }
}

/// The text of a signature: its label, and on the next line its
/// documentation if it has one.
pub open spec fn spec_signature_text(sig: Signature) -> Seq<char> {
    match sig.documentation {
        Some(Documentation::String(t)) => sig.label@ + "\n"@ + t@,
        Some(Documentation::MarkupContent(t)) => sig.label@ + "\n"@ + t@,
        None => sig.label@,
    }
}

/// The text of the signature that `help` points to.
pub fn signature_text(help: &SignatureHelp) -> (r: Result<String, Error>)
    ensures
        match r {
            Ok(s) => shown_signature(*help) < help.signatures@.len() && s@ == spec_signature_text(
                help.signatures@[shown_signature(*help)],
            ),
            Err(e) => e == Error::ExpectedSignature && shown_signature(*help)
                >= help.signatures@.len(),
        },
{
    let i: usize = match help.active_signature {
        Some(i) => i as usize,
        None => 0,
    };
    if i >= help.signatures.len() {
        return Err(Error::ExpectedSignature);
    }
    let sig = &help.signatures[i];
    let mut s = sig.label.clone();
    if let Some(doc) = &sig.documentation {
        s.append("\n");
        s.append(extract_doc(doc));
    }
    Ok(s)
}

/// Whether a symbol of a flat list is shown: variables without a container
/// are not.
pub open spec fn symbol_shown(si: SymbolInformation) -> bool {
    !(si.is_variable && match si.container_name {
        Some(c) => c@.len() == 0,
        None => true,
    })
}

/// The line for a symbol: container, name, kind and location.
pub open spec fn symbol_line(si: SymbolInformation) -> Seq<char> {
    (match si.container_name {
        Some(c) => c@ + "::"@,
        None => Seq::empty(),
    }) + si.name@ + " ("@ + si.kind@ + "): "@ + spec_location_to_plumb(si.location)
}

/// The lines for the symbols among the first `k` of `sis` that are shown.
pub open spec fn symbol_lines(sis: Seq<SymbolInformation>, k: nat) -> Seq<Seq<char>>
    decreases k,
{
    if k == 0 {
        Seq::empty()
    } else if symbol_shown(sis[k - 1]) {
        symbol_lines(sis, (k - 1) as nat).push(symbol_line(sis[k - 1]))
    } else {
        symbol_lines(sis, (k - 1) as nat)
    }
}

/// The output for a flat list of symbols: one line for each symbol that is
/// shown; `None` where none is.
pub fn flat_symbols_output(sis: &Vec<SymbolInformation>) -> (r: Option<String>)
    ensures
        ({
            let ls = symbol_lines(sis@, sis@.len());
            match r {
                Some(s) => ls.len() > 0 && s@ == join(ls, "\n"@, ls.len()),
                None => ls.len() == 0,
            }
        }),
{
    let mut o: Vec<String> = Vec::new();
    let mut i: usize = 0;
    assert(views(o@) == Seq::<Seq<char>>::empty());
    while i < sis.len()
        invariant
            i <= sis.len(),
            views(o@) == symbol_lines(sis@, i as nat),
        decreases sis.len() - i,
    {
        let si = &sis[i];
        let bare = match &si.container_name {
            Some(c) => c.as_str().is_empty(),
            None => true,
        };
        if !(si.is_variable && bare) {
            let mut s = String::new();
            if let Some(c) = &si.container_name {
                s.append(c.as_str());
                s.append("::");
            }
            s.append(si.name.as_str());
            s.append(" (");
            s.append(si.kind.as_str());
            s.append("): ");
            let p = location_to_plumb(&si.location);
            s.append(p.as_str());
            let ghost before = o@;
            o.push(s);
            assert(views(o@) == views(before).push(s@));
        }
        i += 1;
    }
    if o.len() > 0 {
        Some(join_strings(&o, "\n"))
    } else {
        None
    }
}

/// The output for a message of a server: its type in brackets, then its
/// text.
pub open spec fn spec_message_output(typ: Seq<char>, message: Seq<char>) -> Seq<char> {
    "["@ + typ + "] "@ + message
}

/// The output for a message of a server.
pub fn message_output(typ: &str, message: &str) -> (s: String)
    ensures
        s@ == spec_message_output(typ@, message@),
{
    let mut s = String::from_str("[");
    s.append(typ);
    s.append("] ");
    s.append(message);
    s
}

/// The line for a diagnostic: path, line counted from 1, severity, and the
/// first line of the message. A diagnostic without severity is an error.
pub open spec fn diagnostic_line(path: Seq<char>, d: Diagnostic) -> Seq<char> {
    let ls = lines(d.message@);
    path + ":"@ + decimal((d.line + 1) as nat) + ": ["@ + (match d.severity {
        Some(s) => s@,
        None => "Error"@,
    }) + "] "@ + (if ls.len() > 0 {
        ls[0]
    } else {
        Seq::empty()
    })
}

/// The lines for the first `k` of the diagnostics `ds`.
pub open spec fn diagnostic_lines(path: Seq<char>, ds: Seq<Diagnostic>, k: nat) -> Seq<Seq<char>>
    decreases k,
{
    if k == 0 {
        Seq::empty()
    } else {
        diagnostic_lines(path, ds, (k - 1) as nat).push(diagnostic_line(path, ds[k - 1]))
    }
}

/// The number of diagnostics that are shown of `n`.
pub open spec fn shown_diagnostics(n: nat) -> nat {
    if n < MAX_DIAGNOSTICS {
        n
    } else {
        MAX_DIAGNOSTICS as nat
    }
}

/// The lines for the diagnostics `ds` of the file `path`: one for each of
/// the first `MAX_DIAGNOSTICS`.
pub fn diagnostics_output(path: &str, ds: &Vec<Diagnostic>) -> (v: Vec<String>)
    ensures
        views(v@) == diagnostic_lines(path@, ds@, shown_diagnostics(ds@.len())),
{
    let n: usize = if ds.len() < MAX_DIAGNOSTICS {
        ds.len()
    } else {
        MAX_DIAGNOSTICS
    };
    let mut v: Vec<String> = Vec::new();
    let mut i: usize = 0;
    assert(views(v@) == Seq::<Seq<char>>::empty());
    while i < n
        invariant
            i <= n <= ds.len(),
            views(v@) == diagnostic_lines(path@, ds@, i as nat),
        decreases n - i,
    {
        let d = &ds[i];
        let ls = split_lines(d.message.as_str());
        let mut s = String::from_str(path);
        s.append(":");
        push_decimal(&mut s, d.line as u64 + 1);
        s.append(": [");
        match &d.severity {
            Some(t) => s.append(t.as_str()),
            None => s.append("Error"),
        }
        s.append("] ");
        if ls.len() > 0 {
            assert(views(ls@)[0] == ls@[0]@);
            s.append(ls[0].as_str());
        }
        let ghost before = v@;
        v.push(s);
        assert(views(v@) == views(before).push(s@));
        i += 1;
    }
    v
}

/// The notifications of a server that the coordinator takes up.
#[derive(Clone, Copy, Debug, PartialEq, Eq, Structural)]
pub enum Notice {
    LogMessage,
    PublishDiagnostics,
    ShowMessage,
    Progress,
}

/// The notification with the method `method`; `None` for one that is passed
/// over.
pub open spec fn spec_notice_for(method: Seq<char>) -> Option<Notice> {
    if method == "window/logMessage"@ {
        Some(Notice::LogMessage)
    } else if method == "textDocument/publishDiagnostics"@ {
        Some(Notice::PublishDiagnostics)
    } else if method == "window/showMessage"@ {
        Some(Notice::ShowMessage)
    } else if method == "$/progress"@ {
        Some(Notice::Progress)
    } else {
        None
    }
}

/// The notification with the method `method`.
pub fn notice_for(method: &str) -> (n: Option<Notice>)
    ensures
        n == spec_notice_for(method@),
{
    if str_eq(method, "window/logMessage") {
        Some(Notice::LogMessage)
    } else if str_eq(method, "textDocument/publishDiagnostics") {
        Some(Notice::PublishDiagnostics)
    } else if str_eq(method, "window/showMessage") {
        Some(Notice::ShowMessage)
    } else if str_eq(method, "$/progress") {
        Some(Notice::Progress)
    } else {
        None
    }
}

/// The name under which the progress of the token `token` of the server
/// `client` is kept.
pub open spec fn progress_name(client: Seq<char>, token: Seq<char>) -> Seq<char> {
    client + "-"@ + token
}

/// What a server reports of the progress of a piece of work.
#[derive(Debug)]
pub enum WorkDoneProgress {
    Begin { title: String, message: Option<String>, percentage: Option<u32> },
    Report { message: Option<String>, percentage: Option<u32> },
    End,
}

impl Server {
    /// The diagnostics of the file `path` are `ds`: their lines take the
    /// place of those kept for the file.
    pub fn publish_diagnostics(&mut self, path: &str, ds: &Vec<Diagnostic>)
        requires
            old(self).wf(),
        ensures
            final(self).wf(),
            set_at_key(old(self).diags.entries@, final(self).diags.entries@, path@),
            views(final(self).diags.value(path@)@) == diagnostic_lines(
                path@,
                ds@,
                shown_diagnostics(ds@.len()),
            ),
            crate::server::same_but_diags(*final(self), *old(self)),
    {
        let v = diagnostics_output(path, ds);
        let key = String::from_str(path);
        proof {
            lemma_inserted_sets(self.diags.entries@, key, v);
        }
        self.diags.insert(key, v);
    }

    /// A server's message becomes the output.
    pub fn show_message(&mut self, typ: &str, message: &str)
        ensures
            final(self).output@ == spec_message_output(typ@, message@),
            crate::server::same_but_output(*final(self), *old(self)),
    {
        self.output = message_output(typ, message);
    }

    /// The server `client` reports on the work with the token `token`. When
    /// the work begins its progress is kept; a report changes the percentage
    /// and the message of what is kept; when the work ends its progress is
    /// forgotten. A report on work of which nothing is kept is refused.
    pub fn progress(&mut self, client: &str, token: &str, value: WorkDoneProgress) -> (r: Result<
        (),
        Error,
    >)
        requires
            old(self).wf(),
        ensures
            final(self).wf(),
            crate::server::same_but_progress(*final(self), *old(self)),
            r is Err == (value is Report && !old(self).progress.has(
                progress_name(client@, token@),
            )),
            r is Err ==> r == Err::<(), Error>(Error::NoSuchProgress),
            ({
                let name = progress_name(client@, token@);
                let before = old(self).progress;
                let after = final(self).progress;
                match value {
                    WorkDoneProgress::Begin { title, message, percentage } => {
                        &&& set_at_key(before.entries@, after.entries@, name)
                        &&& after.value(name).name@ == name
                        &&& after.value(name).percentage == percentage
                        &&& after.value(name).message == message
                        &&& after.value(name).title == title
                    },
                    WorkDoneProgress::Report { message, percentage } => if before.has(name) {
                        &&& set_at_key(before.entries@, after.entries@, name)
                        &&& after.value(name).name == before.value(name).name
                        &&& after.value(name).title == before.value(name).title
                        &&& after.value(name).percentage == percentage
                        &&& after.value(name).message == message
                    } else {
                        after == before
                    },
                    WorkDoneProgress::End => after.entries@ == removed(before.entries@, name),
                }
            }),
    {
        let mut name = String::from_str(client);
        name.append("-");
        name.append(token);
        proof {
            crate::table::lemma_position(self.progress.entries@, name@);
        }
        let ghost before = self.progress.entries@;
        match value {
            WorkDoneProgress::Begin { title, message, percentage } => {
                let p = WDProgress::new(name.clone(), percentage, message, Some(title));
                proof {
                    lemma_inserted_sets(before, name, p);
                }
                self.progress.insert(name, p);
            },
            WorkDoneProgress::Report { message, percentage } => {
                let i = self.progress.find(&name);
                if i < self.progress.len() {
                    let old_p = &self.progress.entries[i].1;
                    let p = WDProgress {
                        name: old_p.name.clone(),
                        percentage,
                        message,
                        title: old_p.title.clone(),
                    };
                    self.progress.replace_at(i, p);
                    proof {
                        crate::table::lemma_update_keeps_positions(before, i as int, p, name@);
                    }
                } else {
                    return Err(Error::NoSuchProgress);
                }
            },
            WorkDoneProgress::End => {
                self.progress.remove(&name);
            },
        }
        Ok(())
    }
}

} // verus!
