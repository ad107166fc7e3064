//! The body of the control window: what is known, as text, and where in it
//! each window's row starts.
use vstd::prelude::*;
use vstd::string::StringExecFns;

use crate::model::Capabilities;
use crate::server::{ClientId, Pending, Server, WDProgress};
use crate::table::position;
use crate::text::{byte_size, join, lines, split_lines, str_eq, trim, trimmed, views};

verus! {

/// At most this many lines of the last command's output are shown.
pub const MAX_OUTPUT_LINES: usize = 50;

/// The first `k` lines of one file's diagnostics, each with its newline.
pub open spec fn diag_lines(ds: Seq<String>, k: nat) -> Seq<char>
    decreases k,
{
    if k == 0 {
        Seq::empty()
    } else {
        diag_lines(ds, (k - 1) as nat) + ds[k - 1]@ + "\n"@
    }
}

/// The diagnostics of the first `k` files: the lines of each, and an empty
/// line behind those of a file that has any.
pub open spec fn diags_text(diags: Seq<(String, Vec<String>)>, k: nat) -> Seq<char>
    decreases k,
{
    if k == 0 {
        Seq::empty()
    } else {
        let ds = diags[k - 1].1@;
        diags_text(diags, (k - 1) as nat) + diag_lines(ds, ds.len()) + (if ds.len() > 0 {
            "\n"@
        } else {
            Seq::empty()
        })
    }
}

/// The verbs that a server's capabilities allow, each in brackets.
pub open spec fn caps_text(c: Capabilities) -> Seq<char> {
    (if c.definition {
        "[definition] "@
    } else {
        Seq::empty()
    }) + (if c.implementation {
        "[impl] "@
    } else {
        Seq::empty()
    }) + (if c.references {
        "[references] "@
    } else {
        Seq::empty()
    }) + (if c.document_symbol {
        "[symbols] "@
    } else {
        Seq::empty()
    }) + (if c.type_definition {
        "[typedef] "@
    } else {
        Seq::empty()
    })
}

/// The row of the window with the file `name`: a star if it has the focus,
/// the name, and on the next line the verbs of its server, if the server has
/// said what it can do.
pub open spec fn row_text(
    name: Seq<char>,
    focus: Seq<char>,
    files: Seq<(String, String)>,
    caps: Seq<(String, Capabilities)>,
) -> Seq<char> {
    let mark = if name == focus {
        "*"@
    } else {
        " "@
    };
    let start = mark + name + "\n\t"@;
    let f = position(files, name);
    if f < files.len() {
        let c = position(caps, files[f].1@);
        if c < caps.len() {
            start + caps_text(caps[c].1) + "\n"@
        } else {
            start
        }
    } else {
        start
    }
}

/// The text, and the offsets of the rows, after the first `k` rows have been
/// written behind `before`.
pub open spec fn rows(
    before: Seq<char>,
    names: Seq<(String, usize)>,
    focus: Seq<char>,
    files: Seq<(String, String)>,
    caps: Seq<(String, Capabilities)>,
    k: nat,
) -> (Seq<char>, Seq<(usize, usize)>)
    decreases k,
{
    if k == 0 {
        (before, Seq::empty())
    } else {
        let (b, a) = rows(before, names, focus, files, caps, (k - 1) as nat);
        (
            b + row_text(names[k - 1].0@, focus, files, caps),
            a.push((byte_size(b), names[k - 1].1)),
        )
    }
}

/// The first lines of the output, trimmed, between two newlines; nothing for
/// an empty output.
pub open spec fn output_text(output: Seq<char>) -> Seq<char> {
    if output.len() == 0 {
        Seq::empty()
    } else {
        let ls = lines(trim(output));
        let n = if ls.len() < MAX_OUTPUT_LINES {
            ls.len()
        } else {
            MAX_OUTPUT_LINES as nat
        };
        "\n"@ + join(ls, "\n"@, n) + "\n"@
    }
}

/// The lines of the first `k` entries of the progress table.
pub open spec fn progress_lines(progress: Seq<(String, WDProgress)>, k: nat) -> Seq<char>
    decreases k,
{
    if k == 0 {
        Seq::empty()
    } else {
        progress_lines(progress, (k - 1) as nat) + progress[k - 1].1.spec_text() + "\n"@
    }
}

/// The lines of the first `k` open requests: server, path and method.
pub open spec fn request_lines(requests: Seq<(ClientId, Pending)>, k: nat) -> Seq<char>
    decreases k,
{
    if k == 0 {
        Seq::empty()
    } else {
        let (id, p) = requests[k - 1];
        request_lines(requests, (k - 1) as nat) + id.client_name@ + ": "@ + p.path@ + ": "@
            + p.method.spec_name() + "...\n"@
    }
}

/// The text above the rows: the focused window's text, a line of dashes, and
/// the diagnostics.
pub open spec fn top_text(hover: Option<Seq<char>>, diags: Seq<(String, Vec<String>)>) -> Seq<
    char,
> {
    (match hover {
        Some(b) => b + "\n----\n"@,
        None => Seq::empty(),
    }) + diags_text(diags, diags.len())
}

/// The text below the rows: a line of dashes, the output, the progress, the
/// open requests.
pub open spec fn bottom_text(
    output: Seq<char>,
    progress: Seq<(String, WDProgress)>,
    requests: Seq<(ClientId, Pending)>,
) -> Seq<char> {
    "-----\n"@ + output_text(output) + (if progress.len() > 0 {
        "\n"@
    } else {
        Seq::empty()
    }) + progress_lines(progress, progress.len()) + (if requests.len() > 0 {
        "\n"@
    } else {
        Seq::empty()
    }) + request_lines(requests, requests.len())
}

/// The text of the focused window's record, if there is one.
pub open spec fn hover_body(s: Server) -> Option<Seq<char>> {
    match s.current_hover {
        Some(h) => Some(h.body@),
        None => None,
    }
}

/// The text and the row offsets up to the end of the rows.
pub open spec fn spec_rows(s: Server) -> (Seq<char>, Seq<(usize, usize)>) {
    rows(
        top_text(hover_body(s), s.diags.entries@),
        s.names@,
        s.focus@,
        s.files.entries@,
        s.capabilities.entries@,
        s.names@.len(),
    )
}

/// The body of the control window for the state `s`.
pub open spec fn spec_body(s: Server) -> Seq<char> {
    spec_rows(s).0 + bottom_text(s.output@, s.progress.entries@, s.requests.entries@)
}

/// Where the rows start in the body for the state `s`: one entry for each
/// row, and one with the id 0 for the end of the rows.
pub open spec fn spec_addr(s: Server) -> Seq<(usize, usize)> {
    spec_rows(s).1.push((byte_size(spec_rows(s).0), 0usize))
}

/// Whether `a` and `b` hold the same but for `body` and `addr`.
pub open spec fn same_but_body(a: Server, b: Server) -> bool {
    &&& a.config == b.config
    &&& a.ws == b.ws
    &&& a.names == b.names
    &&& a.opened_urls == b.opened_urls
    &&& a.output == b.output
    &&& a.focus == b.focus
    &&& a.progress == b.progress
    &&& a.diags == b.diags
    &&& a.requests == b.requests
    &&& a.current_hover == b.current_hover
    &&& a.clients == b.clients
    &&& a.capabilities == b.capabilities
    &&& a.files == b.files
    &&& a.autorun == b.autorun
}

/// The body depends on nothing that writing it changes: a state that differs
/// only in the body and the offsets last written gives the same body and the
/// same offsets. So where the body was written for a state, writing it again
/// for that state writes nothing.
pub proof fn lemma_sync_is_stable(a: Server, b: Server)
    requires
        same_but_body(a, b),
    ensures
        spec_body(a) == spec_body(b),
        spec_addr(a) == spec_addr(b),
        b.body@ == spec_body(a) ==> b.body@ == spec_body(b),
{
}

fn push_caps(body: &mut String, c: &Capabilities)
    ensures
        final(body)@ == old(body)@ + caps_text(*c),
{
    if c.definition {
        body.append("[definition] ");
    }
    if c.implementation {
        body.append("[impl] ");
    }
    if c.references {
        body.append("[references] ");
    }
    if c.document_symbol {
        body.append("[symbols] ");
    }
    if c.type_definition {
        body.append("[typedef] ");
    }
}

fn push_output(body: &mut String, output: &str)
    ensures
        final(body)@ == old(body)@ + output_text(output@),
{
    if output.is_empty() {
        return ;
    }
    let t = trimmed(output);
    let ls = split_lines(t.as_str());
    let n: usize = if ls.len() < MAX_OUTPUT_LINES {
        ls.len()
    } else {
        MAX_OUTPUT_LINES
    };
    body.append("\n");
    let ghost start = body@;
    let mut k: usize = 0;
    while k < n
        invariant
            k <= n <= ls.len(),
            views(ls@) == lines(trim(output@)),
            body@ == start + join(lines(trim(output@)), "\n"@, k as nat),
        decreases n - k,
    {
        if k > 0 {
            body.append("\n");
        }
        body.append(ls[k].as_str());
        assert(views(ls@)[k as int] == ls@[k as int]@);
        k += 1;
    }
    body.append("\n");
}

impl Server {
    /// Writes the text above the rows.
    fn push_top(&self, body: &mut String)
        ensures
            final(body)@ == old(body)@ + top_text(hover_body(*self), self.diags.entries@),
    {
        if let Some(h) = &self.current_hover {
            body.append(h.body.as_str());
            body.append("\n----\n");
        }
        let ghost start = body@;
        let mut i: usize = 0;
        while i < self.diags.entries.len()
            invariant
                i <= self.diags.entries.len(),
                body@ == start + diags_text(self.diags.entries@, i as nat),
            decreases self.diags.entries.len() - i,
        {
            let ds = &self.diags.entries[i].1;
            let ghost before = body@;
            let mut j: usize = 0;
            while j < ds.len()
                invariant
                    j <= ds.len(),
                    body@ == before + diag_lines(ds@, j as nat),
                decreases ds.len() - j,
            {
                body.append(ds[j].as_str());
                body.append("\n");
                j += 1;
            }
            if ds.len() > 0 {
                body.append("\n");
            }
            i += 1;
        }
    }

    /// Writes the row of the window with the file `name`.
    fn push_row(&self, body: &mut String, name: &String)
        requires
            self.wf(),
        ensures
            final(body)@ == old(body)@ + row_text(
                name@,
                self.focus@,
                self.files.entries@,
                self.capabilities.entries@,
            ),
    {
        if str_eq(name.as_str(), self.focus.as_str()) {
            body.append("*");
        } else {
            body.append(" ");
        }
        body.append(name.as_str());
        body.append("\n\t");
        if let Some(client) = self.files.get(name) {
            if let Some(c) = self.capabilities.get(client) {
                push_caps(body, c);
                body.append("\n");
            }
        }
    }

    /// Writes the text below the rows.
    fn push_bottom(&self, body: &mut String)
        ensures
            final(body)@ == old(body)@ + bottom_text(
                self.output@,
                self.progress.entries@,
                self.requests.entries@,
            ),
    {
        body.append("-----\n");
        push_output(body, self.output.as_str());
        if self.progress.entries.len() > 0 {
            body.append("\n");
        }
        let ghost start = body@;
        let mut i: usize = 0;
        while i < self.progress.entries.len()
            invariant
                i <= self.progress.entries.len(),
                body@ == start + progress_lines(self.progress.entries@, i as nat),
            decreases self.progress.entries.len() - i,
        {
            let t = self.progress.entries[i].1.to_text();
            body.append(t.as_str());
            body.append("\n");
            i += 1;
        }
        if self.requests.entries.len() > 0 {
            body.append("\n");
        }
        let ghost start2 = body@;
        let mut k: usize = 0;
        while k < self.requests.entries.len()
            invariant
                k <= self.requests.entries.len(),
                body@ == start2 + request_lines(self.requests.entries@, k as nat),
            decreases self.requests.entries.len() - k,
        {
            let e = &self.requests.entries[k];
            body.append(e.0.client_name.as_str());
            body.append(": ");
            body.append(e.1.path.as_str());
            body.append(": ");
            body.append(e.1.method.name());
            body.append("...\n");
            k += 1;
        }
    }

    /// Makes the body of the control window anew and notes where its rows
    /// start. Returns the body where it differs from the one last written,
    /// for the caller to write; `None` where nothing is to be written.
    pub fn sync(&mut self) -> (r: Option<String>)
        requires
            old(self).wf(),
        ensures
            final(self).wf(),
            final(self).body@ == spec_body(*old(self)),
            final(self).addr@ == spec_addr(*old(self)),
            r is Some == (spec_body(*old(self)) != old(self).body@),
            r is Some ==> r->0@ == spec_body(*old(self)),
            same_but_body(*final(self), *old(self)),
    {
        let mut body = String::new();
        self.push_top(&mut body);
        let mut addr: Vec<(usize, usize)> = Vec::new();
        let ghost top = body@;
        assert(top == top_text(hover_body(*self), self.diags.entries@));
        let mut i: usize = 0;
        while i < self.names.len()
            invariant
                i <= self.names.len(),
                self.wf(),
                (body@, addr@) == rows(
                    top,
                    self.names@,
                    self.focus@,
                    self.files.entries@,
                    self.capabilities.entries@,
                    i as nat,
                ),
            decreases self.names.len() - i,
        {
            addr.push((body.as_str().len(), self.names[i].1));
            self.push_row(&mut body, &self.names[i].0);
            i += 1;
        }
        addr.push((body.as_str().len(), 0));
        self.push_bottom(&mut body);
        self.addr = addr;
        if str_eq(self.body.as_str(), body.as_str()) {
            None
        } else {
            self.body = body.clone();
            Some(body)
        }
    }
}

} // verus!
