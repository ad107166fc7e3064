//! A file handle on a 9P connection: its cursor, the walks that make new
//! handles, and the pieces in which reads and writes are made.
use vstd::prelude::*;

use crate::Error;
use crate::codec::Qid;
use crate::conn::{Conn, IOHDRSZ};
use crate::text::{chars_of, first_index_of, lemma_first_index_of, string_of, views};

verus! {

/// Open for reading.
pub const READ: u8 = 0;

/// Open for writing.
pub const WRITE: u8 = 1;

/// Open for reading and writing.
pub const RDWR: u8 = 2;

/// The most names that one walk message may carry.
pub const MAXWELEM: usize = 16;

/// Where to move the cursor of a file.
#[derive(Clone, Copy, Debug, PartialEq, Eq, Structural)]
pub enum SeekFrom {
    Start(u64),
    End(i64),
    Current(i64),
}

/// A file handle.
#[derive(Clone, Copy, Debug, PartialEq, Eq, Structural)]
pub struct Fid {
    pub qid: Qid,
    pub fid: u32,
    pub mode: u8,
    pub offset: u64,
}

/// One walk message of a walk: from which fid, to which fid, along which
/// names.
#[derive(Debug, PartialEq, Eq)]
pub struct WalkStep {
    pub fid: u32,
    pub newfid: u32,
    pub wname: Vec<String>,
}

/// What a walk takes: the fid that the file reached gets, and the walk
/// messages that lead to it.
#[derive(Debug, PartialEq, Eq)]
pub struct WalkPlan {
    pub newfid: u32,
    pub steps: Vec<WalkStep>,
}

/// A [`WalkStep`] with its names as sequences of characters.
pub struct StepView {
    pub fid: u32,
    pub newfid: u32,
    pub wname: Seq<Seq<char>>,
}

impl View for WalkStep {
    type V = StepView;

    open spec fn view(&self) -> StepView {
        StepView { fid: self.fid, newfid: self.newfid, wname: views(self.wname@) }
    }
}

/// The views of the steps in `steps`.
pub open spec fn step_views(steps: Seq<WalkStep>) -> Seq<StepView> {
    steps.map_values(|s: WalkStep| s@)
}

/// The names that the path `path` is made of: what stands between slashes,
/// without empty names and without the name `.`.
pub open spec fn elements(path: Seq<char>) -> Seq<Seq<char>>
    decreases path.len(),
    via elements_decreases
{
    let i = first_index_of(path, '/');
    let head = path.take(i);
    let rest = if i < path.len() {
        elements(path.skip(i + 1))
    } else {
        Seq::empty()
    };
    if head.len() == 0 || head == seq!['.'] {
        rest
    } else {
        seq![head] + rest
    }
}

#[via_fn]
proof fn elements_decreases(path: Seq<char>) {
    lemma_first_index_of(path, '/');
}

/// The number of walk messages for a path of `n` names: one for each
/// `MAXWELEM` names or part thereof, and one for a path without names.
pub open spec fn step_count(n: nat) -> nat {
    if n == 0 {
        1
    } else {
        ((n + MAXWELEM - 1) / MAXWELEM as int) as nat
    }
}

/// The walk messages that walk from `fid` along `names` to the new fid
/// `newfid`: each carries the next names, at most `MAXWELEM`; the first
/// starts at `fid`, the others at `newfid`.
pub open spec fn walk_steps(fid: u32, newfid: u32, names: Seq<Seq<char>>) -> Seq<StepView> {
    Seq::new(
        step_count(names.len()),
        |k: int|
            StepView {
                fid: if k == 0 {
                    fid
                } else {
                    newfid
                },
                newfid,
                wname: names.subrange(
                    k * MAXWELEM,
                    if (k + 1) * MAXWELEM < names.len() {
                        (k + 1) * MAXWELEM
                    } else {
                        names.len() as int
                    },
                ),
            },
    )
}

/// A path of up to `MAXWELEM` names takes one walk message, with all its
/// names; a path of more names, up to twice `MAXWELEM`, takes two, of which
/// the first carries `MAXWELEM` names and the second starts at the new fid.
pub proof fn lemma_walk_boundary(fid: u32, newfid: u32, names: Seq<Seq<char>>)
    ensures
        names.len() <= MAXWELEM ==> {
            &&& walk_steps(fid, newfid, names).len() == 1
            &&& walk_steps(fid, newfid, names)[0] == (StepView { fid, newfid, wname: names })
        },
        MAXWELEM < names.len() <= 2 * MAXWELEM ==> {
            &&& walk_steps(fid, newfid, names).len() == 2
            &&& walk_steps(fid, newfid, names)[0] == (StepView {
                fid,
                newfid,
                wname: names.take(MAXWELEM as int),
            })
            &&& walk_steps(fid, newfid, names)[1] == (StepView {
                fid: newfid,
                newfid,
                wname: names.skip(MAXWELEM as int),
            })
        },
{
    if names.len() <= MAXWELEM {
        assert(names.subrange(0, names.len() as int) == names);
        if names.len() == MAXWELEM {
            assert(names.subrange(0, MAXWELEM as int) == names);
        }
    } else if names.len() <= 2 * MAXWELEM {
        assert(names.subrange(0, MAXWELEM as int) == names.take(MAXWELEM as int));
        assert(names.subrange(MAXWELEM as int, names.len() as int) == names.skip(MAXWELEM as int));
        if names.len() == 2 * MAXWELEM {
            assert(names.subrange(MAXWELEM as int, 2 * MAXWELEM) == names.skip(MAXWELEM as int));
        }
    }
}

/// The names that the path `path` is made of.
pub fn path_elements(path: &str) -> (r: Vec<String>)
    ensures
        views(r@) == elements(path@),
{
    let v = chars_of(path);
    let mut starts: Vec<usize> = Vec::new();
    let mut r: Vec<String> = Vec::new();
    let mut pos: usize = 0;
    assert(v@.skip(0) == v@);
    assert(views(r@) == Seq::<Seq<char>>::empty());
    loop
        invariant
            pos <= v@.len(),
            v@ == path@,
            elements(path@) == views(r@) + elements(v@.skip(pos as int)),
        decreases v@.len() - pos,
    {
        let ghost s = v@.skip(pos as int);
        let mut end: usize = pos;
        assert(s.skip(0) == s);
        while end < v.len() && v[end] != '/'
            invariant
                pos <= end <= v@.len(),
                s == v@.skip(pos as int),
                first_index_of(s, '/') == (end - pos) + first_index_of(s.skip(end - pos), '/'),
            decreases v@.len() - end,
        {
            assert(s.skip(end - pos)[0] == v@[end as int]);
            assert(s.skip(end - pos).drop_first() == s.skip(end - pos + 1));
            end += 1;
        }
        proof {
            if end < v@.len() {
                assert(s.skip(end - pos)[0] == v@[end as int]);
            }
            assert(first_index_of(s, '/') == end - pos);
            assert(s.take(end - pos) == v@.subrange(pos as int, end as int));
        }
        let dot = end - pos == 1 && v[pos] == '.';
        proof {
            let head = s.take(end - pos);
            if dot {
                assert(head == seq!['.']);
            } else if head == seq!['.'] {
                assert(head.len() == 1);
                assert(head[0] == '.');
                assert(head[0] == v@[pos as int]);
            }
        }
        if end > pos && !dot {
            let w = string_of(&v[pos..end]);
            let ghost before = r@;
            r.push(w);
            assert(views(r@) == views(before).push(w@));
        }
        if end >= v.len() {
            return r;
        }
        proof {
            assert(s.skip(end - pos + 1) == v@.skip(end + 1));
        }
        pos = end + 1;
    }
}

/// Copies of `names[from..to]`.
fn copy_names(names: &Vec<String>, from: usize, to: usize) -> (r: Vec<String>)
    requires
        from <= to <= names@.len(),
    ensures
        views(r@) == views(names@).subrange(from as int, to as int),
{
    let mut r: Vec<String> = Vec::new();
    let mut i: usize = from;
    while i < to
        invariant
            from <= i <= to <= names@.len(),
            r@ == names@.subrange(from as int, i as int),
        decreases to - i,
    {
        r.push(names[i].clone());
        i += 1;
    }
    assert(views(r@) == views(names@).subrange(from as int, to as int));
    r
}

impl Fid {
    /// A handle for the file with the qid `qid`, under the fid `fid`: open
    /// for reading, with the cursor at the start.
    pub fn new(fid: u32, qid: Qid) -> (f: Fid)
        ensures
            f == (Fid { qid, fid, mode: READ, offset: 0 }),
    {
        Fid { qid, fid, mode: READ, offset: 0 }
    }

    /// The walk messages that walk from this file along the path `name` to
    /// the new fid `wfid`.
    pub fn walk(&self, wfid: u32, name: &str) -> (steps: Vec<WalkStep>)
        ensures
            step_views(steps@) == walk_steps(self.fid, wfid, elements(name@)),
    {
        let names = path_elements(name);
        let mut steps: Vec<WalkStep> = Vec::new();
        let mut from: usize = 0;
        let mut fid = self.fid;
        let ghost ns = views(names@);
        assert(step_views(steps@) == walk_steps(self.fid, wfid, ns).take(0));
        loop
            invariant
                from <= names@.len(),
                ns == views(names@),
                ns == elements(name@),
                from % MAXWELEM == 0,
                steps@.len() == from / MAXWELEM,
                steps@.len() < step_count(ns.len()),
                fid == if from == 0 {
                    self.fid
                } else {
                    wfid
                },
                step_views(steps@) == walk_steps(self.fid, wfid, ns).take(steps@.len() as int),
            decreases names@.len() - from,
        {
            let n: usize = if names.len() - from < MAXWELEM {
                names.len() - from
            } else {
                MAXWELEM
            };
            let wname = copy_names(&names, from, from + n);
            let ghost before = steps@;
            let step = WalkStep { fid, newfid: wfid, wname };
            steps.push(step);
            proof {
                let k = before.len() as int;
                assert(from == k * MAXWELEM);
                assert(walk_steps(self.fid, wfid, ns)[k] == step@);
                assert(step_views(steps@) == step_views(before).push(step@));
                assert(walk_steps(self.fid, wfid, ns).take(k + 1) == walk_steps(
                    self.fid,
                    wfid,
                    ns,
                ).take(k).push(step@));
            }
            from = from + n;
            if from >= names.len() {
                proof {
                    assert(steps@.len() == step_count(ns.len()));
                    assert(walk_steps(self.fid, wfid, ns).take(steps@.len() as int) == walk_steps(
                        self.fid,
                        wfid,
                        ns,
                    ));
                }
                return steps;
            }
            fid = wfid;
        }
    }

    /// What a walk from this file along the path `name` takes: a fid that
    /// the connection has not given out before, and the walk messages that
    /// lead to it. The new fid is not the fid of this file, where the
    /// connection gave that out.
    pub fn walk_new(&self, c: &mut Conn, name: &str) -> (r: Result<WalkPlan, Error>)
        ensures
            final(c).msize == old(c).msize,
            final(c).next_tag == old(c).next_tag,
            final(c).pending == old(c).pending,
            match r {
                Ok(p) => {
                    &&& old(c).nextfid < crate::conn::NOFID - 1
                    &&& p.newfid == old(c).nextfid + 1
                    &&& final(c).nextfid == p.newfid
                    &&& !old(c).given_out(p.newfid)
                    &&& final(c).given_out(p.newfid)
                    &&& old(c).given_out(self.fid) ==> p.newfid != self.fid
                    &&& step_views(p.steps@) == walk_steps(self.fid, p.newfid, elements(name@))
                },
                Err(e) => {
                    &&& e == Error::OutOfFids
                    &&& old(c).nextfid >= crate::conn::NOFID - 1
                    &&& final(c).nextfid == old(c).nextfid
                },
            },
    {
        let newfid = match c.newfid() {
            Ok(f) => f,
            Err(e) => {
                return Err(e);
            },
        };
        Ok(WalkPlan { newfid, steps: self.walk(newfid, name) })
    }

    /// The handle that a walk ends in, given the qids that came back for its
    /// last walk message, which carried `asked` names: the file has the last
    /// of the qids, and the qid of this file where no name was walked. A
    /// walk that gave fewer qids than names did not reach its end.
    pub fn walked(&self, wfid: u32, asked: usize, qids: &Vec<Qid>) -> (r: Result<Fid, Error>)
        ensures
            match r {
                Ok(f) => qids@.len() >= asked && f == (Fid {
                    qid: if asked == 0 {
                        self.qid
                    } else {
                        qids@[asked - 1]
                    },
                    fid: wfid,
                    mode: READ,
                    offset: 0,
                }),
                Err(e) => e == Error::Walk && qids@.len() < asked,
            },
    {
        if qids.len() < asked {
            return Err(Error::Walk);
        }
        let qid = if asked == 0 {
            self.qid
        } else {
            qids[asked - 1]
        };
        Ok(Fid::new(wfid, qid))
    }

    /// The file has been opened in the mode `mode`.
    pub fn open(&mut self, mode: u8)
        ensures
            *final(self) == (Fid { mode, ..*old(self) }),
    {
        self.mode = mode;
    }

    /// The number of bytes to ask for in one read message when `len` bytes
    /// are wanted: as many as are wanted, and at most as many as fit into a
    /// message.
    pub fn read_count(&self, c: &Conn, len: usize) -> (n: u32)
        requires
            c.wf(),
        ensures
            n <= c.msize - IOHDRSZ,
            n <= len,
            n == len || n == c.msize - IOHDRSZ,
    {
        let most: u32 = c.msize - IOHDRSZ;
        if len < most as usize {
            len as u32
        } else {
            most
        }
    }

    /// A read that asked for `asked` bytes gave `got` bytes: the cursor moves
    /// on by `got`. A read that gave more bytes than were asked for is
    /// refused, and so is one that would move the cursor beyond the largest
    /// offset; the cursor stays where it is then.
    pub fn read_done(&mut self, asked: u32, got: usize) -> (r: Result<usize, Error>)
        ensures
            r is Ok == (got <= asked && old(self).offset + got <= u64::MAX),
            match r {
                Ok(n) => {
                    &&& n == got
                    &&& *final(self) == (Fid { offset: (old(self).offset + got) as u64, ..*old(self) })
                },
                Err(e) => {
                    &&& *final(self) == *old(self)
                    &&& e == if got > asked {
                        Error::TooMany
                    } else {
                        Error::Unsupported
                    }
                },
            },
    {
        if got > asked as usize {
            return Err(Error::TooMany);
        }
        if got as u64 > u64::MAX - self.offset {
            return Err(Error::Unsupported);
        }
        self.offset = self.offset + got as u64;
        Ok(got)
    }

    /// A write of `asked` bytes is said to have written `got` bytes: the
    /// cursor moves on by `got`. A write that is said to have written more
    /// bytes than were asked for is refused, and so is one that would move
    /// the cursor beyond the largest offset; the cursor stays where it is
    /// then.
    pub fn write_done(&mut self, asked: usize, got: u32) -> (r: Result<usize, Error>)
        ensures
            r is Ok == (got <= asked && old(self).offset + got <= u64::MAX),
            match r {
                Ok(n) => {
                    &&& n == got
                    &&& *final(self) == (Fid { offset: (old(self).offset + got) as u64, ..*old(self) })
                },
                Err(e) => {
                    &&& *final(self) == *old(self)
                    &&& e == if got > asked {
                        Error::TooMany
                    } else {
                        Error::Unsupported
                    }
                },
            },
    {
        if got as usize > asked {
            return Err(Error::TooMany);
        }
        if got as u64 > u64::MAX - self.offset {
            return Err(Error::Unsupported);
        }
        self.offset = self.offset + got as u64;
        Ok(got as usize)
    }

    /// `n` bytes have been read or written: the cursor moves on by `n`.
    pub fn advance(&mut self, n: usize)
        requires
            old(self).offset + n <= u64::MAX,
        ensures
            *final(self) == (Fid { offset: (old(self).offset + n) as u64, ..*old(self) }),
    {
        self.offset = self.offset + n as u64;
    }

    /// The piece to write next when `done` of `len` bytes have been written:
    /// the bytes from `done` on, as many as fit into a message. Nothing is
    /// left to write when all bytes have been written, but for the first
    /// piece: a write of no bytes is made once.
    pub fn next_chunk(&self, c: &Conn, len: usize, done: usize, first: bool) -> (r: Option<
        (usize, usize),
    >)
        requires
            c.wf(),
        ensures
            match r {
                Some(p) => {
                    &&& done < len || first
                    &&& p.0 == if done < len {
                        done
                    } else {
                        len
                    }
                    &&& p.0 <= p.1 <= len
                    &&& p.1 - p.0 <= c.msize - IOHDRSZ
                    &&& p.1 == len || p.1 - p.0 == c.msize - IOHDRSZ
                },
                None => done >= len && !first,
            },
    {
        if done >= len && !first {
            return None;
        }
        let start: usize = if done < len {
            done
        } else {
            len
        };
        let most: usize = (c.msize - IOHDRSZ) as usize;
        let want: usize = if len - start < most {
            len - start
        } else {
            most
        };
        Some((start, start + want))
    }

    /// Moves the cursor: to an offset from the start, or by an offset from
    /// where it is. The cursor cannot be moved from the end of the file, nor
    /// before the start or beyond the largest offset.
    pub fn seek(&mut self, pos: SeekFrom) -> (r: Result<u64, Error>)
        ensures
            match pos {
                SeekFrom::Start(n) => r == Ok::<u64, Error>(n) && *final(self) == (Fid {
                    offset: n,
                    ..*old(self)
                }),
                SeekFrom::Current(n) => if 0 <= old(self).offset + n <= u64::MAX {
                    &&& r == Ok::<u64, Error>((old(self).offset + n) as u64)
                    &&& *final(self) == (Fid { offset: (old(self).offset + n) as u64, ..*old(self) })
                } else {
                    r == Err::<u64, Error>(Error::Unsupported) && *final(self) == *old(self)
                },
                SeekFrom::End(_) => r == Err::<u64, Error>(Error::Unsupported) && *final(self)
                    == *old(self),
            },
    {
        match pos {
            SeekFrom::Start(n) => {
                self.offset = n;
            },
            SeekFrom::Current(n) => {
                if n >= 0 {
                    if n as u64 > u64::MAX - self.offset {
                        return Err(Error::Unsupported);
                    }
                    self.offset = self.offset + n as u64;
                } else {
                    let back: u64 = if n == i64::MIN {
                        0x8000_0000_0000_0000u64
                    } else {
                        (-n) as u64
                    };
                    if back > self.offset {
                        return Err(Error::Unsupported);
                    }
                    self.offset = self.offset - back;
                }
            },
            SeekFrom::End(_) => {
                return Err(Error::Unsupported);
            },
        }
        Ok(self.offset)
    }
}

} // verus!
