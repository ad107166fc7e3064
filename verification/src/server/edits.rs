//! Turning the edits that a server asks for into writes to a window's files.
use vstd::prelude::*;
use vstd::string::StringExecFns;

use crate::Error;
use crate::acme::{File, OpView, WinOp, op_views};
use crate::model::{
    DocumentChanges, InsertTextFormat, Position, Range, TextDocumentEdit, TextEdit, UrlEdits,
    WorkspaceEdit,
};
use crate::nl::{NlOffsets, spec_line_to_offset};
use crate::outside::{DiffLine, LineDiff, diff_lines, line_diff, regex_remove_all, regex_without};
use crate::server::{Server, ServerWin};
use crate::table::position;
use crate::text::{decimal, push_decimal, str_eq};

verus! {

/// The placeholders of a snippet: `${number:word}` and `$0`.
pub open spec fn snippet_pattern() -> Seq<char> {
    r"(\$\{\d+:[[:alpha:]]+\})|(\$0)"@
}

/// The address of line `i`.
pub open spec fn line_address(i: nat) -> Seq<char> {
    decimal(i) + ","@ + decimal(i)
}

/// The address of the empty range behind line `i`.
pub open spec fn after_line_address(i: nat) -> Seq<char> {
    decimal(i) + "+#0"@
}

/// The address of the characters from offset `from` up to offset `to`.
pub open spec fn range_address(from: nat, to: nat) -> Seq<char> {
    "#"@ + decimal(from) + ",#"@ + decimal(to)
}

/// The number of the current line and the operations after the first `k`
/// pieces of a comparison have been gone through. A line that only the old
/// text has is deleted; a line that only the new text has is put in behind
/// the line before it; a line that both have is left alone.
pub open spec fn diff_ops(lines: Seq<DiffLine>, k: nat) -> (nat, Seq<OpView>)
    decreases k,
{
    if k == 0 {
        (0, Seq::empty())
    } else {
        let (i, ops) = diff_ops(lines, (k - 1) as nat);
        match lines[k - 1] {
            DiffLine::Left(_) => (
                i,
                ops.push(OpView::Write { file: File::Addr, data: line_address(i + 1) }).push(
                    OpView::Write { file: File::Data, data: Seq::empty() },
                ),
            ),
            DiffLine::Right(s) => (
                i + 1,
                ops.push(OpView::Write { file: File::Addr, data: after_line_address(i) }).push(
                    OpView::Write { file: File::Data, data: s + "\n"@ },
                ),
            ),
            DiffLine::Both(_, _) => (i + 1, ops),
        }
    }
}

pub proof fn lemma_diff_ops_bound(lines: Seq<DiffLine>, k: nat)
    ensures
        diff_ops(lines, k).0 <= k,
    decreases k,
{
    if k > 0 {
        lemma_diff_ops_bound(lines, (k - 1) as nat);
    }
}

/// The writes that turn the old text into the new one, line by line, for the
/// comparison `lines` of the two.
pub fn diff_writes(lines: &Vec<LineDiff>) -> (ops: Vec<WinOp>)
    ensures
        op_views(ops@) == diff_ops(lines@.map_values(|d: LineDiff| d@), lines@.len()).1,
{
    let ghost ls = lines@.map_values(|d: LineDiff| d@);
    let mut ops: Vec<WinOp> = Vec::new();
    let mut i: usize = 0;
    let mut k: usize = 0;
    assert(op_views(ops@) == Seq::<OpView>::empty());
    while k < lines.len()
        invariant
            k <= lines.len(),
            ls == lines@.map_values(|d: LineDiff| d@),
            i == diff_ops(ls, k as nat).0,
            i <= k,
            op_views(ops@) == diff_ops(ls, k as nat).1,
        decreases lines.len() - k,
    {
        let ghost before = ops@;
        match &lines[k] {
            LineDiff::Left(_) => {
                let mut a = String::new();
                push_decimal(&mut a, (i + 1) as u64);
                a.append(",");
                push_decimal(&mut a, (i + 1) as u64);
                let addr = WinOp::Write { file: File::Addr, data: a };
                let data = WinOp::Write { file: File::Data, data: String::new() };
                ops.push(addr);
                ops.push(data);
                assert(op_views(ops@) == op_views(before).push(addr@).push(data@));
            },
            LineDiff::Right(s) => {
                let mut a = String::new();
                push_decimal(&mut a, i as u64);
                a.append("+#0");
                let mut d = s.clone();
                d.append("\n");
                let addr = WinOp::Write { file: File::Addr, data: a };
                let data = WinOp::Write { file: File::Data, data: d };
                ops.push(addr);
                ops.push(data);
                assert(op_views(ops@) == op_views(before).push(addr@).push(data@));
                i += 1;
            },
            LineDiff::Both(_, _) => {
                i += 1;
            },
        }
        k += 1;
    }
    ops
}

/// The text that is written for an edit: the edit's text, without the
/// placeholders where it is a snippet.
pub open spec fn written_text(format: InsertTextFormat, text: Seq<char>) -> Seq<char> {
    match format {
        InsertTextFormat::PlainText => text,
        InsertTextFormat::Snippet => match regex_without(snippet_pattern(), text) {
            Some(t) => t,
            None => text,
        },
    }
}

/// The text that is written for each of `edits`.
pub fn edit_texts(format: InsertTextFormat, edits: &Vec<TextEdit>) -> (texts: Vec<String>)
    ensures
        texts@.len() == edits@.len(),
        forall|i: int|
            0 <= i < edits@.len() ==> (#[trigger] texts@[i])@ == written_text(
                format,
                edits@[i].new_text@,
            ),
{
    let mut texts: Vec<String> = Vec::new();
    let mut i: usize = 0;
    while i < edits.len()
        invariant
            i <= edits.len(),
            texts@.len() == i,
            forall|j: int|
                0 <= j < i ==> (#[trigger] texts@[j])@ == written_text(format, edits@[j].new_text@),
        decreases edits.len() - i,
    {
        let t = match format {
            InsertTextFormat::PlainText => edits[i].new_text.clone(),
            InsertTextFormat::Snippet => match regex_remove_all(
                r"(\$\{\d+:[[:alpha:]]+\})|(\$0)",
                edits[i].new_text.as_str(),
            ) {
                Some(t) => t,
                None => edits[i].new_text.clone(),
            },
        };
        texts.push(t);
        i += 1;
    }
    texts
}

/// The offset of a position, for the line starts `starts` of a text with
/// `leftover` characters behind its last newline.
pub open spec fn position_offset(starts: Seq<int>, leftover: int, p: Position) -> nat {
    spec_line_to_offset(starts, leftover, p.line as int, p.character as int) as nat
}

/// The operations for the last `k` of the edits, the last edit first: for
/// each the address of its range in characters, then its text.
pub open spec fn range_ops(
    starts: Seq<int>,
    leftover: int,
    ranges: Seq<Range>,
    texts: Seq<Seq<char>>,
    k: nat,
) -> Seq<OpView>
    decreases k,
{
    if k == 0 {
        Seq::empty()
    } else {
        let i = ranges.len() - k;
        range_ops(starts, leftover, ranges, texts, (k - 1) as nat).push(
            OpView::Write {
                file: File::Addr,
                data: range_address(
                    position_offset(starts, leftover, ranges[i].start),
                    position_offset(starts, leftover, ranges[i].end),
                ),
            },
        ).push(OpView::Write { file: File::Data, data: texts[i] })
    }
}

/// What comes before the edits: the body's cursor goes to its start and the
/// edits are made one step for undo.
pub open spec fn edit_prelude() -> Seq<OpView> {
    seq![
        OpView::Seek { file: File::Body, pos: 0 },
        OpView::Write { file: File::Ctl, data: "nomark\n"@ },
        OpView::Write { file: File::Ctl, data: "mark\n"@ },
    ]
}

/// The ranges of `edits`.
pub open spec fn edit_ranges(edits: Seq<TextEdit>) -> Seq<Range> {
    edits.map_values(|e: TextEdit| e.range)
}

/// The writes that make `edits` in a window whose text has the line starts
/// of `offsets`, with `texts` as the texts to write: the last edit first, so
/// that the offsets of the earlier ones stay right.
pub fn range_writes(offsets: &NlOffsets, edits: &Vec<TextEdit>, texts: &Vec<String>) -> (ops: Vec<
    WinOp,
>)
    requires
        texts@.len() == edits@.len(),
    ensures
        op_views(ops@) == edit_prelude() + range_ops(
            offsets.starts(),
            offsets.tail(),
            edit_ranges(edits@),
            crate::text::views(texts@),
            edits@.len(),
        ),
{
    let mut ops: Vec<WinOp> = Vec::new();
    ops.push(WinOp::Seek { file: File::Body, pos: 0 });
    ops.push(WinOp::Write { file: File::Ctl, data: String::from_str("nomark\n") });
    ops.push(WinOp::Write { file: File::Ctl, data: String::from_str("mark\n") });
    assert(op_views(ops@) == edit_prelude());
    let ghost ranges = edit_ranges(edits@);
    let ghost tv = crate::text::views(texts@);
    let mut k: usize = 0;
    while k < edits.len()
        invariant
            k <= edits.len(),
            texts@.len() == edits@.len(),
            ranges == edit_ranges(edits@),
            tv == crate::text::views(texts@),
            op_views(ops@) == edit_prelude() + range_ops(
                offsets.starts(),
                offsets.tail(),
                ranges,
                tv,
                k as nat,
            ),
        decreases edits.len() - k,
    {
        let i: usize = edits.len() - 1 - k;
        let e = &edits[i];
        let soff = offsets.line_to_offset(e.range.start.line as u64, e.range.start.character as u64);
        let eoff = offsets.line_to_offset(e.range.end.line as u64, e.range.end.character as u64);
        let mut a = String::from_str("#");
        push_decimal(&mut a, soff);
        a.append(",#");
        push_decimal(&mut a, eoff);
        let ghost before = ops@;
        let addr = WinOp::Write { file: File::Addr, data: a };
        let data = WinOp::Write { file: File::Data, data: texts[i].clone() };
        proof {
            assert(ranges[i as int] == e.range);
            assert(tv[i as int] == texts@[i as int]@);
        }
        ops.push(addr);
        ops.push(data);
        assert(op_views(ops@) == op_views(before).push(addr@).push(data@));
        k += 1;
    }
    ops
}

/// Whether the one edit `e` replaces a whole text whose last line is line
/// `last_line` and has `last_col` characters.
pub open spec fn replaces_all(e: TextEdit, last_line: int, last_col: int) -> bool {
    &&& e.range.start.line == 0
    &&& e.range.start.character == 0
    &&& e.range.end.line == last_line
    &&& e.range.end.character == last_col
}

/// The operations that make `edits` in a window with the text `body`.
/// Nothing is done for no edits, or for one edit whose text is the body. One
/// edit that replaces the whole text is made line by line, from a comparison
/// of the body with the edit's text. Other edits are made range by range.
pub open spec fn spec_text_edit_ops(
    body: Seq<char>,
    format: InsertTextFormat,
    edits: Seq<TextEdit>,
) -> Seq<OpView> {
    let starts = crate::nl::line_starts(body);
    let leftover = body.len() - starts.last();
    if edits.len() == 0 {
        Seq::empty()
    } else if edits.len() == 1 && edits[0].new_text@ == body {
        Seq::empty()
    } else if edits.len() == 1 && replaces_all(edits[0], starts.len() - 1, leftover) {
        let d = line_diff(body, edits[0].new_text@);
        diff_ops(d, d.len()).1
    } else {
        edit_prelude() + range_ops(
            starts,
            leftover,
            edit_ranges(edits),
            Seq::new(edits.len(), |i: int| written_text(format, edits[i].new_text@)),
            edits.len(),
        )
    }
}

/// The operations that make `edits` in a window with the text `body`.
pub fn plan_text_edits(body: &str, format: InsertTextFormat, edits: &Vec<TextEdit>) -> (ops: Vec<
    WinOp,
>)
    ensures
        op_views(ops@) == spec_text_edit_ops(body@, format, edits@),
{
    if edits.len() == 0 {
        let ops: Vec<WinOp> = Vec::new();
        assert(op_views(ops@) == Seq::<OpView>::empty());
        return ops;
    }
    let offsets = NlOffsets::of_text(body);
    if edits.len() == 1 {
        if str_eq(body, edits[0].new_text.as_str()) {
            let ops: Vec<WinOp> = Vec::new();
            assert(op_views(ops@) == Seq::<OpView>::empty());
            return ops;
        }
        let last = offsets.last();
        let r = edits[0].range;
        if r.start.line == 0 && r.start.character == 0 && r.end.line as u64 == last.0
            && r.end.character as u64 == last.1 {
            let lines = diff_lines(body, edits[0].new_text.as_str());
            return diff_writes(&lines);
        }
    }
    let texts = edit_texts(format, edits);
    assert(crate::text::views(texts@) == Seq::new(
        edits@.len(),
        |i: int| written_text(format, edits@[i].new_text@),
    ));
    range_writes(&offsets, edits, &texts)
}

/// The edits of one document that are to be made.
#[derive(Debug, PartialEq, Eq)]
pub struct DocEdits {
    /// The path part of the document's address.
    pub path: String,
    pub format: InsertTextFormat,
    pub edits: Vec<TextEdit>,
}

/// A copy of `e`.
pub fn copy_edit(e: &TextEdit) -> (r: TextEdit)
    ensures
        r == *e,
{
    TextEdit { range: e.range, new_text: e.new_text.clone() }
}

/// The first `k` of `edits` without those that carry an annotation.
pub open spec fn plain_edits(edits: Seq<Option<TextEdit>>, k: nat) -> Seq<TextEdit>
    decreases k,
{
    if k == 0 {
        Seq::empty()
    } else {
        match edits[k - 1] {
            Some(e) => plain_edits(edits, (k - 1) as nat).push(e),
            None => plain_edits(edits, (k - 1) as nat),
        }
    }
}

/// A [`DocEdits`] with its path as a sequence of characters and its edits as
/// a sequence.
pub struct DocEditsView {
    pub path: Seq<char>,
    pub format: InsertTextFormat,
    pub edits: Seq<TextEdit>,
}

impl View for DocEdits {
    type V = DocEditsView;

    open spec fn view(&self) -> DocEditsView {
        DocEditsView { path: self.path@, format: self.format, edits: self.edits@ }
    }
}

/// The views of the edits in `v`.
pub open spec fn doc_views(v: Seq<DocEdits>) -> Seq<DocEditsView> {
    v.map_values(|d: DocEdits| d@)
}

/// The edits of the first `k` documents of a list of document changes, each
/// without the edits that carry an annotation.
pub open spec fn document_edits(docs: Seq<TextDocumentEdit>, k: nat) -> Seq<DocEditsView>
    decreases k,
{
    if k == 0 {
        Seq::empty()
    } else {
        let d = docs[k - 1];
        document_edits(docs, (k - 1) as nat).push(
            DocEditsView {
                path: d.path@,
                format: InsertTextFormat::PlainText,
                edits: plain_edits(d.edits@, d.edits@.len()),
            },
        )
    }
}

/// The edits of the first `k` documents of a list of changes by address.
pub open spec fn change_edits(changes: Seq<UrlEdits>, k: nat) -> Seq<DocEditsView>
    decreases k,
{
    if k == 0 {
        Seq::empty()
    } else {
        let c = changes[k - 1];
        change_edits(changes, (k - 1) as nat).push(
            DocEditsView { path: c.path@, format: InsertTextFormat::PlainText, edits: c.edits@ },
        )
    }
}

/// The edits that a workspace edit asks for, document by document: those of
/// its document changes, then those of its changes by address. `None` where
/// the document changes are not edits.
pub open spec fn workspace_edits(edit: WorkspaceEdit) -> Option<Seq<DocEditsView>> {
    let first = match edit.document_changes {
        Some(DocumentChanges::Edits(docs)) => Some(document_edits(docs@, docs@.len())),
        Some(DocumentChanges::Operations) => None,
        None => Some(Seq::empty()),
    };
    let second = match edit.changes {
        Some(changes) => change_edits(changes@, changes@.len()),
        None => Seq::empty(),
    };
    match first {
        Some(f) => Some(f + second),
        None => None,
    }
}

/// Copies of the edits in `edits` that carry no annotation.
fn copy_plain(edits: &Vec<Option<TextEdit>>) -> (r: Vec<TextEdit>)
    ensures
        r@ == plain_edits(edits@, edits@.len()),
{
    let mut r: Vec<TextEdit> = Vec::new();
    let mut i: usize = 0;
    while i < edits.len()
        invariant
            i <= edits.len(),
            r@ == plain_edits(edits@, i as nat),
        decreases edits.len() - i,
    {
        if let Some(e) = &edits[i] {
            r.push(copy_edit(e));
        }
        i += 1;
    }
    r
}

/// Copies of the edits in `edits`.
fn copy_edits(edits: &Vec<TextEdit>) -> (r: Vec<TextEdit>)
    ensures
        r@ == edits@,
{
    let mut r: Vec<TextEdit> = Vec::new();
    let mut i: usize = 0;
    while i < edits.len()
        invariant
            i <= edits.len(),
            r@ == edits@.take(i as int),
        decreases edits.len() - i,
    {
        r.push(copy_edit(&edits[i]));
        i += 1;
    }
    assert(edits@.take(edits@.len() as int) == edits@);
    r
}

/// The edits that `edit` asks for, document by document. Document changes
/// that are not edits are not supported.
pub fn apply_workspace_edit(edit: &WorkspaceEdit) -> (r: Result<Vec<DocEdits>, Error>)
    ensures
        match r {
            Ok(v) => workspace_edits(*edit) == Some(doc_views(v@)),
            Err(e) => e == Error::Unsupported && workspace_edits(*edit) is None,
        },
{
    let mut out: Vec<DocEdits> = Vec::new();
    assert(doc_views(out@) == Seq::<DocEditsView>::empty());
    match &edit.document_changes {
        Some(DocumentChanges::Edits(docs)) => {
            let mut i: usize = 0;
            while i < docs.len()
                invariant
                    i <= docs.len(),
                    doc_views(out@) == document_edits(docs@, i as nat),
                decreases docs.len() - i,
            {
                let d = DocEdits {
                    path: docs[i].path.clone(),
                    format: InsertTextFormat::PlainText,
                    edits: copy_plain(&docs[i].edits),
                };
                let ghost before = out@;
                out.push(d);
                assert(doc_views(out@) == doc_views(before).push(d@));
                i += 1;
            }
        },
        Some(DocumentChanges::Operations) => {
            return Err(Error::Unsupported);
        },
        None => {},
    }
    let ghost first = doc_views(out@);
    if let Some(changes) = &edit.changes {
        let mut k: usize = 0;
        while k < changes.len()
            invariant
                k <= changes.len(),
                doc_views(out@) == first + change_edits(changes@, k as nat),
            decreases changes.len() - k,
        {
            let d = DocEdits {
                path: changes[k].path.clone(),
                format: InsertTextFormat::PlainText,
                edits: copy_edits(&changes[k].edits),
            };
            let ghost before = out@;
            out.push(d);
            assert(doc_views(out@) == doc_views(before).push(d@));
            k += 1;
        }
    }
    Ok(out)
}

impl Server {
    /// The id of the first window in the list that shows the file
    /// `filename`.
    pub fn winid_by_name(&self, filename: &str) -> (r: Option<usize>)
        ensures
            match r {
                Some(id) => position(self.names@, filename@) < self.names@.len() && id
                    == self.names@[position(self.names@, filename@)].1,
                None => position(self.names@, filename@) >= self.names@.len(),
            },
    {
        let mut i: usize = 0;
        while i < self.names.len()
            invariant
                i <= self.names.len(),
                forall|j: int| 0 <= j < i ==> (#[trigger] self.names@[j]).0@ != filename@,
            decreases self.names.len() - i,
        {
            if str_eq(self.names[i].0.as_str(), filename) {
                proof {
                    crate::table::lemma_position_is(self.names@, filename@, i as int);
                }
                return Some(self.names[i].1);
            }
            i += 1;
        }
        proof {
            crate::table::lemma_position_is(self.names@, filename@, i as int);
        }
        None
    }

    /// The window that shows the file `filename`.
    pub fn get_sw_by_name(&self, filename: &str) -> (r: Result<&ServerWin, Error>)
        requires
            self.wf(),
        ensures
            match r {
                Ok(w) => {
                    let p = position(self.names@, filename@);
                    &&& p < self.names@.len()
                    &&& self.ws@.contains_key(self.names@[p].1)
                    &&& *w == self.ws@[self.names@[p].1]
                },
                Err(e) => {
                    let p = position(self.names@, filename@);
                    if p < self.names@.len() {
                        e == Error::NoSuchWindow && !self.ws@.contains_key(self.names@[p].1)
                    } else {
                        e == Error::NoSuchFile
                    }
                },
            },
    {
        let wid = match self.winid_by_name(filename) {
            Some(id) => id,
            None => {
                return Err(Error::NoSuchFile);
            },
        };
        match self.ws.get(&wid) {
            Some(w) => Ok(w),
            None => Err(Error::NoSuchWindow),
        }
    }

    /// The window that shows the document whose address has the path
    /// `path`.
    pub fn get_sw_by_url(&self, path: &str) -> (r: Result<&ServerWin, Error>)
        requires
            self.wf(),
        ensures
            match r {
                Ok(w) => {
                    let p = position(self.names@, path@);
                    &&& p < self.names@.len()
                    &&& self.ws@.contains_key(self.names@[p].1)
                    &&& *w == self.ws@[self.names@[p].1]
                },
                Err(e) => {
                    let p = position(self.names@, path@);
                    if p < self.names@.len() {
                        e == Error::NoSuchWindow && !self.ws@.contains_key(self.names@[p].1)
                    } else {
                        e == Error::NoSuchFile
                    }
                },
            },
    {
        self.get_sw_by_name(path)
    }

    /// The window in which `edits` to the document with the path `path` are
    /// to be made, and the operations that make them there, given the
    /// window's text `body`. No edits need no window.
    pub fn apply_text_edits(
        &self,
        path: &str,
        body: &str,
        format: InsertTextFormat,
        edits: &Vec<TextEdit>,
    ) -> (r: Result<Option<(usize, Vec<WinOp>)>, Error>)
        requires
            self.wf(),
        ensures
            edits@.len() == 0 ==> r == Ok::<Option<(usize, Vec<WinOp>)>, Error>(None),
            edits@.len() > 0 ==> {
                let p = position(self.names@, path@);
                match r {
                    Ok(Some(t)) => {
                        &&& p < self.names@.len()
                        &&& self.ws@.contains_key(self.names@[p].1)
                        &&& t.0 == self.ws@[self.names@[p].1].id
                        &&& op_views(t.1@) == spec_text_edit_ops(body@, format, edits@)
                    },
                    Ok(None) => false,
                    Err(e) => if p < self.names@.len() {
                        e == Error::NoSuchWindow && !self.ws@.contains_key(self.names@[p].1)
                    } else {
                        e == Error::NoSuchFile
                    },
                }
            },
    {
        if edits.len() == 0 {
            return Ok(None);
        }
        let id = match self.get_sw_by_url(path) {
            Ok(w) => w.id,
            Err(e) => {
                return Err(e);
            },
        };
        Ok(Some((id, plan_text_edits(body, format, edits))))
    }
}

} // verus!
