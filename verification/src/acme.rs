//! The editor's windows: what its files say, read as values.
use vstd::prelude::*;
use vstd::string::StringExecFns;
use vstd::utf8::{decode_utf8, encode_utf8, valid_utf8};

use crate::Error;
use crate::outside::str_from_utf8;
use crate::sort::{
    Ranked, lemma_lex_asymmetric, lemma_lex_transitive, lemma_text_total, lex_lt, str_before,
    text_lt,
};
use crate::text::{
    chars_of, decimal, fields, first_index_of, index_of, lines, parse_usize, push_decimal,
    spec_parse_usize, split_fields, split_lines, str_eq, string_of, trim, trim_end_index,
    trim_start_index, views,
};

pub use crate::event::WinEvents;
pub use crate::nl::NlOffsets;

verus! {

/// A window of the editor: its id and the name of its file.
#[derive(Debug, PartialEq, Eq)]
pub struct WinInfo {
    pub id: usize,
    pub name: String,
}

impl Ranked for WinInfo {
    /// By name, and by id among windows of one name.
    open spec fn before(&self, other: &Self) -> bool {
        if self.name@ != other.name@ {
            text_lt(self.name@, other.name@)
        } else {
            self.id < other.id
        }
    }

    proof fn lemma_order(a: &Self, b: &Self, c: &Self) {
        let x = encode_utf8(a.name@);
        let y = encode_utf8(b.name@);
        let z = encode_utf8(c.name@);
        lemma_lex_asymmetric(x, x);
        lemma_lex_asymmetric(x, y);
        lemma_lex_asymmetric(y, z);
        lemma_text_total(a.name@, b.name@);
        lemma_text_total(b.name@, c.name@);
        lemma_text_total(a.name@, c.name@);
        if lex_lt(x, y) && lex_lt(y, z) {
            lemma_lex_transitive(x, y, z);
        }
        if lex_lt(z, y) && lex_lt(y, x) {
            lemma_lex_transitive(z, y, x);
        }
        lemma_lex_asymmetric(x, z);
    }

    fn precedes(&self, other: &Self) -> (r: bool) {
        if !str_eq(self.name.as_str(), other.name.as_str()) {
            str_before(self.name.as_str(), other.name.as_str())
        } else {
            self.id < other.id
        }
    }
}

/// A record of the editor's log: the window, what happened to it, and the
/// name of its file.
#[derive(Debug, PartialEq, Eq)]
pub struct LogEvent {
    pub id: usize,
    pub op: String,
    pub name: String,
}

/// The files of a window.
#[derive(Clone, Copy, Debug, PartialEq, Eq, Structural)]
pub enum File {
    Ctl,
    Body,
    Addr,
    Data,
    Tag,
}

/// An event of a window, as its event file reports it.
#[derive(Debug, PartialEq, Eq)]
pub struct Event {
    pub c1: char,
    pub c2: char,
    pub q0: u32,
    pub q1: u32,
    pub orig_q0: u32,
    pub orig_q1: u32,
    pub flag: u32,
    pub nr: u32,
    pub text: String,
    pub arg: String,
    pub loc: String,
}

impl Event {
    /// Whether the event names a range of text without carrying the text.
    pub open spec fn lacks_text(&self) -> bool {
        self.text@.len() == 0 && self.q0 < self.q1
    }

    /// Whether the event names a range of text without carrying the text.
    pub fn needs_text(&self) -> (r: bool)
        ensures
            r == self.lacks_text(),
    {
        self.text.as_str().is_empty() && self.q0 < self.q1
    }

    /// Makes sure that the event carries its text. An event that carries it,
    /// or names no range, stays as it is; for others there is no way to load
    /// the text.
    pub fn load_text(&mut self)
        requires
            !old(self).lacks_text(),
        ensures
            *final(self) == *old(self),
    {
    }
}

/// Something to do to a file of a window.
#[derive(Debug, PartialEq, Eq)]
pub enum WinOp {
    /// Move the file's cursor to `pos`.
    Seek { file: File, pos: u64 },
    /// Write `data` to the file.
    Write { file: File, data: String },
}

/// A [`WinOp`] with its text as a sequence of characters.
pub enum OpView {
    Seek { file: File, pos: u64 },
    Write { file: File, data: Seq<char> },
}

impl View for WinOp {
    type V = OpView;

    open spec fn view(&self) -> OpView {
        match self {
            WinOp::Seek { file, pos } => OpView::Seek { file: *file, pos: *pos },
            WinOp::Write { file, data } => OpView::Write { file: *file, data: data@ },
        }
    }
}

/// The views of the operations in `ops`.
pub open spec fn op_views(ops: Seq<WinOp>) -> Seq<OpView> {
    ops.map_values(|o: WinOp| o@)
}

/// What a line of the editor's index says: nothing where it has fewer than
/// six fields, else the window's id, which is the first field, and the name
/// of its file, which is the sixth.
pub open spec fn spec_index_line(line: Seq<char>) -> Result<Option<(usize, Seq<char>)>, Error> {
    let f = fields(line);
    if f.len() < 6 {
        Ok(None)
    } else {
        match spec_parse_usize(f[0]) {
            Some(id) => Ok(Some((id, f[5]))),
            None => Err(Error::Number),
        }
    }
}

/// The windows that the first `k` lines say, as ids and names; the error of
/// the first line that has one.
pub open spec fn spec_index(ls: Seq<Seq<char>>, k: nat) -> Result<Seq<(usize, Seq<char>)>, Error>
    decreases k,
{
    if k == 0 {
        Ok(Seq::empty())
    } else {
        match spec_index(ls, (k - 1) as nat) {
            Err(e) => Err(e),
            Ok(ws) => match spec_index_line(ls[k - 1]) {
                Err(e) => Err(e),
                Ok(Some(w)) => Ok(ws.push(w)),
                Ok(None) => Ok(ws),
            },
        }
    }
}

/// The ids and names of the windows in `ws`.
pub open spec fn win_views(ws: Seq<WinInfo>) -> Seq<(usize, Seq<char>)> {
    ws.map_values(|w: WinInfo| (w.id, w.name@))
}

impl WinInfo {
    /// The window that a line of the editor's index is about.
    pub fn parse_line(line: &str) -> (r: Result<Option<WinInfo>, Error>)
        ensures
            match (r, spec_index_line(line@)) {
                (Ok(Some(w)), Ok(Some(v))) => w.id == v.0 && w.name@ == v.1,
                (Ok(None), Ok(None)) => true,
                (Err(a), Err(b)) => a == b,
                _ => false,
            },
    {
        let v = chars_of(line);
        let f = split_fields(&v);
        if f.len() < 6 {
            return Ok(None);
        }
        assert(views(f@)[0] == f@[0]@);
        assert(views(f@)[5] == f@[5]@);
        let first = chars_of(f[0].as_str());
        match parse_usize(first.as_slice()) {
            Some(id) => Ok(Some(WinInfo { id, name: f[5].clone() })),
            None => Err(Error::Number),
        }
    }

    /// The windows that the editor's index `index` lists.
    pub fn windows(index: &str) -> (r: Result<Vec<WinInfo>, Error>)
        ensures
            match (r, spec_index(lines(index@), lines(index@).len())) {
                (Ok(ws), Ok(vs)) => win_views(ws@) == vs,
                (Err(a), Err(b)) => a == b,
                _ => false,
            },
    {
        let ls = split_lines(index);
        let mut ws: Vec<WinInfo> = Vec::new();
        let mut i: usize = 0;
        assert(win_views(ws@) == Seq::<(usize, Seq<char>)>::empty());
        while i < ls.len()
            invariant
                i <= ls@.len(),
                views(ls@) == lines(index@),
                spec_index(lines(index@), i as nat) == Ok::<Seq<(usize, Seq<char>)>, Error>(
                    win_views(ws@),
                ),
            decreases ls@.len() - i,
        {
            assert(views(ls@)[i as int] == ls@[i as int]@);
            match WinInfo::parse_line(ls[i].as_str()) {
                Ok(Some(w)) => {
                    let ghost before = ws@;
                    ws.push(w);
                    assert(win_views(ws@) == win_views(before).push((w.id, w.name@)));
                },
                Ok(None) => {},
                Err(e) => {
                    proof {
                        lemma_index_error_stays(lines(index@), (i + 1) as nat, lines(index@).len());
                    }
                    return Err(e);
                },
            }
            i += 1;
        }
        Ok(ws)
    }
}

/// Once a line has an error, the lines behind it change nothing.
pub proof fn lemma_index_error_stays(ls: Seq<Seq<char>>, k: nat, n: nat)
    requires
        k <= n,
        spec_index(ls, k) is Err,
    ensures
        spec_index(ls, n) == spec_index(ls, k),
    decreases n,
{
    if n > k {
        lemma_index_error_stays(ls, k, (n - 1) as nat);
    }
}

/// A [`LogEvent`] with its texts as sequences of characters.
pub struct LogView {
    pub id: usize,
    pub op: Seq<char>,
    pub name: Seq<char>,
}

impl View for LogEvent {
    type V = LogView;

    open spec fn view(&self) -> LogView {
        LogView { id: self.id, op: self.op@, name: self.name@ }
    }
}

/// What a record of the log says: the id up to the first space, the
/// operation up to the second, and the rest, trimmed, as the name.
pub open spec fn spec_log_record(s: Seq<char>) -> Result<LogView, Error> {
    let a = first_index_of(s, ' ');
    let rest = s.skip(a + 1);
    let b = first_index_of(rest, ' ');
    if a >= s.len() || b >= rest.len() {
        Err(Error::MalformedLog)
    } else {
        match spec_parse_usize(s.take(a)) {
            Some(id) => Ok(LogView { id, op: rest.take(b), name: trim(rest.skip(b + 1)) }),
            None => Err(Error::Number),
        }
    }
}

impl LogEvent {
    /// The record of the log that the bytes `data` hold.
    pub fn parse(data: &[u8]) -> (r: Result<LogEvent, Error>)
        ensures
            match r {
                Ok(e) => valid_utf8(data@) && spec_log_record(decode_utf8(data@)) == Ok::<
                    LogView,
                    Error,
                >(e@),
                Err(e) => if valid_utf8(data@) {
                    spec_log_record(decode_utf8(data@)) == Err::<LogView, Error>(e)
                } else {
                    e == Error::Utf8
                },
            },
    {
        let text = match str_from_utf8(data) {
            Some(t) => t,
            None => {
                return Err(Error::Utf8);
            },
        };
        let v = chars_of(text);
        let a = index_of(&v, ' ');
        if a >= v.len() {
            return Err(Error::MalformedLog);
        }
        let rest: Vec<char> = vstd::slice::slice_to_vec(&v[a + 1..v.len()]);
        assert(rest@ == v@.skip(a + 1));
        let b = index_of(&rest, ' ');
        if b >= rest.len() {
            return Err(Error::MalformedLog);
        }
        assert(v@.subrange(0, a as int) == v@.take(a as int));
        let id = match parse_usize(&v[0..a]) {
            Some(id) => id,
            None => {
                return Err(Error::Number);
            },
        };
        let op = string_of(&rest[0..b]);
        assert(rest@.subrange(0, b as int) == rest@.take(b as int));
        let tail: Vec<char> = vstd::slice::slice_to_vec(&rest[b + 1..rest.len()]);
        assert(tail@ == rest@.skip(b + 1));
        let e = trim_end_index(&tail);
        let s = trim_start_index(&tail, e);
        let name = string_of(&tail[s..e]);
        assert(tail@.subrange(s as int, e as int) == tail@.take(e as int).skip(s as int));
        Ok(LogEvent { id, op, name })
    }
}

/// The most bytes that one read of the log gives.
pub const LOG_RECORD_MAX: usize = 8192;

/// The reader of the editor's log. Each read of the log gives one record.
#[derive(Debug)]
pub struct LogReader {
    /// The number of records read.
    pub count: u64,
}

impl LogReader {
    /// A reader that has read nothing.
    pub fn new() -> (r: LogReader)
        ensures
            r.count == 0,
    {
        LogReader { count: 0 }
    }

    /// The record that the bytes `data` hold, as one read of the log gave
    /// them.
    pub fn read(&mut self, data: &[u8]) -> (r: Result<LogEvent, Error>)
        ensures
            match r {
                Ok(e) => valid_utf8(data@) && spec_log_record(decode_utf8(data@)) == Ok::<
                    LogView,
                    Error,
                >(e@),
                Err(e) => if valid_utf8(data@) {
                    spec_log_record(decode_utf8(data@)) == Err::<LogView, Error>(e)
                } else {
                    e == Error::Utf8
                },
            },
            final(self).count == if r is Ok && old(self).count < u64::MAX {
                (old(self).count + 1) as u64
            } else {
                old(self).count
            },
    {
        let r = LogEvent::parse(data);
        if r.is_ok() && self.count < u64::MAX {
            self.count = self.count + 1;
        }
        r
    }
}

/// The first field of `s` as a number.
pub open spec fn spec_first_number(s: Seq<char>) -> Result<usize, Error> {
    let f = fields(s);
    if f.len() == 0 {
        Err(Error::ShortRead)
    } else {
        match spec_parse_usize(f[0]) {
            Some(n) => Ok(n),
            None => Err(Error::Number),
        }
    }
}

/// The first two fields of `s` as numbers.
pub open spec fn spec_two_numbers(s: Seq<char>) -> Result<(usize, usize), Error> {
    let f = fields(s);
    if f.len() < 2 {
        Err(Error::ShortRead)
    } else {
        match spec_parse_usize(f[0]) {
            None => Err(Error::Number),
            Some(a) => match spec_parse_usize(f[1]) {
                None => Err(Error::Number),
                Some(b) => Ok((a, b)),
            },
        }
    }
}

/// A window of the editor, by its id.
#[derive(Clone, Copy, Debug, PartialEq, Eq, Structural)]
pub struct Win {
    pub id: usize,
}

/// The name of the file `name` of the window `id`.
pub open spec fn spec_win_path(id: usize, name: Seq<char>) -> Seq<char> {
    decimal(id as nat) + "/"@ + name
}

impl Win {
    /// The window whose id the bytes `data` start with, as they are read
    /// from the control file of a new window.
    pub fn new(data: &[u8]) -> (r: Result<Win, Error>)
        ensures
            match r {
                Ok(w) => valid_utf8(data@) && spec_first_number(decode_utf8(data@)) == Ok::<
                    usize,
                    Error,
                >(w.id),
                Err(e) => if valid_utf8(data@) {
                    spec_first_number(decode_utf8(data@)) == Err::<usize, Error>(e)
                } else {
                    e == Error::Utf8
                },
            },
    {
        let text = match str_from_utf8(data) {
            Some(t) => t,
            None => {
                return Err(Error::Utf8);
            },
        };
        let v = chars_of(text);
        let f = split_fields(&v);
        if f.len() == 0 {
            return Err(Error::ShortRead);
        }
        assert(views(f@)[0] == f@[0]@);
        let first = chars_of(f[0].as_str());
        match parse_usize(first.as_slice()) {
            Some(id) => Ok(Win { id }),
            None => Err(Error::Number),
        }
    }

    /// The window with the id `id`.
    pub fn open(id: usize) -> (w: Win)
        ensures
            w.id == id,
    {
        Win { id }
    }

    pub fn id(&self) -> (id: usize)
        ensures
            id == self.id,
    {
        self.id
    }

    /// The name of the window's file `name` in the editor's file system.
    pub fn path(&self, name: &str) -> (s: String)
        ensures
            s@ == spec_win_path(self.id, name@),
    {
        let mut s = String::new();
        push_decimal(&mut s, self.id as u64);
        s.append("/");
        s.append(name);
        s
    }

    /// The name of the window's event file.
    pub fn events(&self) -> (s: String)
        ensures
            s@ == spec_win_path(self.id, "event"@),
    {
        self.path("event")
    }

    /// Writing `data` to the file `file`.
    pub fn write(&self, file: File, data: &str) -> (op: WinOp)
        ensures
            op@ == (OpView::Write { file, data: data@ }),
    {
        WinOp::Write { file, data: String::from_str(data) }
    }

    /// Writing the command `data` to the control file: a line of its own.
    pub fn ctl(&self, data: &str) -> (op: WinOp)
        ensures
            op@ == (OpView::Write { file: File::Ctl, data: data@ + "\n"@ }),
    {
        let mut s = String::from_str(data);
        s.append("\n");
        WinOp::Write { file: File::Ctl, data: s }
    }

    /// Setting the address to `data`.
    pub fn addr(&self, data: &str) -> (op: WinOp)
        ensures
            op@ == (OpView::Write { file: File::Addr, data: data@ }),
    {
        self.write(File::Addr, data)
    }

    /// Emptying the body: the address is set to the whole body and nothing
    /// is written in its place.
    pub fn clear(&self) -> (ops: Vec<WinOp>)
        ensures
            op_views(ops@) == seq![
                OpView::Write { file: File::Addr, data: ","@ },
                OpView::Write { file: File::Data, data: Seq::empty() },
            ],
    {
        let mut ops: Vec<WinOp> = Vec::new();
        ops.push(WinOp::Write { file: File::Addr, data: String::from_str(",") });
        ops.push(WinOp::Write { file: File::Data, data: String::new() });
        ops
    }

    /// Naming the window `name`.
    pub fn name(&self, name: &str) -> (op: WinOp)
        ensures
            op@ == (OpView::Write { file: File::Ctl, data: "name "@ + name@ + "\n"@ }),
    {
        let mut s = String::from_str("name ");
        s.append(name);
        s.append("\n");
        WinOp::Write { file: File::Ctl, data: s }
    }

    /// Deleting the window; `sure` deletes it even if its text is not saved.
    pub fn del(&self, sure: bool) -> (op: WinOp)
        ensures
            op@ == (OpView::Write {
                file: File::Ctl,
                data: if sure {
                    "delete\n"@
                } else {
                    "del\n"@
                },
            }),
    {
        if sure {
            WinOp::Write { file: File::Ctl, data: String::from_str("delete\n") }
        } else {
            WinOp::Write { file: File::Ctl, data: String::from_str("del\n") }
        }
    }

    /// Moving the cursor of the file `file` to the offset `pos`.
    pub fn seek(&self, file: File, pos: u64) -> (op: WinOp)
        ensures
            op@ == (OpView::Seek { file, pos }),
    {
        WinOp::Seek { file, pos }
    }

    /// Moving the cursor of the file `file` to its start, to read it.
    pub fn read(&self, file: File) -> (op: WinOp)
        ensures
            op@ == (OpView::Seek { file, pos: 0 }),
    {
        WinOp::Seek { file, pos: 0 }
    }

    /// What comes before the selection of the window is read: the address
    /// is set to the selection, and the cursor of the address file goes to
    /// its start.
    pub fn locate(&self) -> (ops: Vec<WinOp>)
        ensures
            op_views(ops@) == seq![
                OpView::Write { file: File::Ctl, data: "addr=dot\n"@ },
                OpView::Seek { file: File::Addr, pos: 0 },
            ],
    {
        let mut ops: Vec<WinOp> = Vec::new();
        ops.push(WinOp::Write { file: File::Ctl, data: String::from_str("addr=dot\n") });
        ops.push(WinOp::Seek { file: File::Addr, pos: 0 });
        ops
    }

    /// The range that the bytes `data` give, as they are read from the
    /// start of the address file: two numbers.
    pub fn read_addr(&self, data: &[u8]) -> (r: Result<(usize, usize), Error>)
        ensures
            match r {
                Ok(p) => valid_utf8(data@) && spec_two_numbers(decode_utf8(data@)) == Ok::<
                    (usize, usize),
                    Error,
                >(p),
                Err(e) => if valid_utf8(data@) {
                    spec_two_numbers(decode_utf8(data@)) == Err::<(usize, usize), Error>(e)
                } else {
                    e == Error::Utf8
                },
            },
    {
        let text = match str_from_utf8(data) {
            Some(t) => t,
            None => {
                return Err(Error::Utf8);
            },
        };
        let v = chars_of(text);
        let f = split_fields(&v);
        if f.len() < 2 {
            return Err(Error::ShortRead);
        }
        assert(views(f@)[0] == f@[0]@);
        assert(views(f@)[1] == f@[1]@);
        let first = chars_of(f[0].as_str());
        let a = match parse_usize(first.as_slice()) {
            Some(a) => a,
            None => {
                return Err(Error::Number);
            },
        };
        let second = chars_of(f[1].as_str());
        match parse_usize(second.as_slice()) {
            Some(b) => Ok((a, b)),
            None => Err(Error::Number),
        }
    }
}

/// The writes that put `body` in the place of the whole body of the control
/// window and mark the window as clean.
pub open spec fn spec_body_ops(body: Seq<char>) -> Seq<OpView> {
    seq![
        OpView::Write { file: File::Addr, data: ","@ },
        OpView::Write { file: File::Data, data: body },
        OpView::Write { file: File::Ctl, data: "cleartag\nclean\n"@ },
        OpView::Write { file: File::Tag, data: " Get"@ },
    ]
}

/// The writes that put `body` in the place of the whole body of the control
/// window.
pub fn body_ops(body: String) -> (ops: Vec<WinOp>)
    ensures
        op_views(ops@) == spec_body_ops(body@),
{
    let mut ops: Vec<WinOp> = Vec::new();
    ops.push(WinOp::Write { file: File::Addr, data: String::from_str(",") });
    ops.push(WinOp::Write { file: File::Data, data: body });
    ops.push(WinOp::Write { file: File::Ctl, data: String::from_str("cleartag\nclean\n") });
    ops.push(WinOp::Write { file: File::Tag, data: String::from_str(" Get") });
    ops
}

} // verus!
