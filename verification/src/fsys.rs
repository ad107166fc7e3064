//! A file system on a 9P connection, by the handle of its root.
use vstd::prelude::*;

use crate::Error;
use crate::conn::Conn;
use crate::fid::{Fid, WalkPlan, elements, step_views, walk_steps};

verus! {

/// A file system: the handle of its root.
#[derive(Clone, Copy, Debug, PartialEq, Eq, Structural)]
pub struct Fsys {
    pub fid: Fid,
}

impl Fsys {
    /// What opening the file `name` takes: a new fid, and the walk from the
    /// root along `name` that ends in it. The file is opened once the walk
    /// has ended.
    pub fn open(&self, c: &mut Conn, name: &str) -> (r: Result<WalkPlan, Error>)
        ensures
            final(c).msize == old(c).msize,
            final(c).next_tag == old(c).next_tag,
            final(c).pending == old(c).pending,
            match r {
                Ok(p) => {
                    &&& old(c).nextfid < crate::conn::NOFID - 1
                    &&& p.newfid == old(c).nextfid + 1
                    &&& final(c).nextfid == p.newfid
                    &&& !old(c).given_out(p.newfid)
                    &&& final(c).given_out(p.newfid)
                    &&& old(c).given_out(self.fid.fid) ==> p.newfid != self.fid.fid
                    &&& step_views(p.steps@) == walk_steps(self.fid.fid, p.newfid, elements(name@))
                },
                Err(e) => {
                    &&& e == Error::OutOfFids
                    &&& old(c).nextfid >= crate::conn::NOFID - 1
                    &&& final(c).nextfid == old(c).nextfid
                },
            },
    {
        self.fid.walk_new(c, name)
    }
}

} // verus!
