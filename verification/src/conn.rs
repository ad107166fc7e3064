//! A connection to a 9P server: tags, fids, and the messages that go over
//! it. The connection reads and writes nothing itself: it makes the bytes of
//! requests and takes the bytes of replies.
use std::collections::HashSet;

use vstd::prelude::*;
use vstd::bytes::{spec_u16_from_le_bytes, spec_u32_from_le_bytes, spec_u32_to_le_bytes};

use crate::Error;
use crate::codec::{
    Field, Qid, RATTACH, RCLUNK, RERROR, ROPEN, RREAD, RVERSION, RWALK, RWRITE, TATTACH, TCLUNK,
    TOPEN, TREAD, TVERSION, TWALK, TWRITE, decode, encodable, encode, rattach_kinds, rclunk_kinds,
    rerror_kinds, ropen_kinds, rread_kinds, rversion_kinds, rwalk_kinds, rwrite_kinds,
    tattach_fields, tclunk_fields, topen_fields, tread_fields, tversion_fields, twalk_fields,
    twrite_fields,
};
use crate::outside::{
    decode_rattach, decode_rclunk, decode_rerror, decode_ropen, decode_rread, decode_rversion,
    decode_rwalk, decode_rwrite, encode_tattach, encode_tclunk, encode_topen, encode_tread,
    encode_tversion, encode_twalk, encode_twrite, put_u32_le,
};
use crate::text::{str_eq, views};

verus! {

broadcast use vstd::std_specs::hash::group_hash_axioms;

/// The tag of a message that needs none.
pub const NOTAG: u16 = 0xffff;

/// The fid that stands for no fid.
pub const NOFID: u32 = 0xffff_ffff;

/// The message size that the client asks for.
pub const MSIZE: u32 = 131072;

/// The bytes of a read or write message besides its data.
pub const IOHDRSZ: u32 = 24;

/// A qid with the given parts.
pub fn qid_of(file_type: u8, version: u32, path: u64) -> (q: Qid)
    ensures
        q == (Qid { file_type, version, path }),
{
    Qid { file_type, version, path }
}

/// A request to send: its tag and the bytes of its message.
#[derive(Debug, PartialEq, Eq)]
pub struct Request {
    pub tag: u16,
    pub bytes: Vec<u8>,
}

/// The state of a connection.
#[derive(Debug, PartialEq, Eq)]
pub struct Conn {
    /// The largest message that may be sent.
    pub msize: u32,
    /// The fid given out last.
    pub nextfid: u32,
    /// The tag that the next request gets.
    pub next_tag: u16,
    /// The tags of the requests that wait for their reply.
    pub pending: HashSet<u16>,
}

/// A message: its size in four bytes, counted with these four and the type,
/// then its type, then its fields.
pub open spec fn spec_frame(mtype: u8, body: Seq<u8>) -> Seq<u8> {
    spec_u32_to_le_bytes((body.len() + 5) as u32) + seq![mtype] + body
}

/// Whether `after` and `r` are what making a request of type `mtype` with
/// the fields `fields` makes of `before`. The request gets the next tag and
/// waits for its reply from then on. No request is made, and nothing
/// changes, where the tags are used up, where the fields cannot be written,
/// or where the message is larger than the message size.
pub open spec fn sends(
    before: Conn,
    after: Conn,
    r: Result<Request, Error>,
    mtype: u8,
    fields: Seq<Field>,
) -> bool {
    if before.next_tag == NOTAG {
        r == Err::<Request, Error>(Error::OutOfTags) && after == before
    } else if !encodable(fields) {
        r == Err::<Request, Error>(Error::Encode) && after == before
    } else if encode(fields).len() > before.msize {
        r == Err::<Request, Error>(Error::TooLarge) && after == before
    } else {
        &&& r is Ok
        &&& r->Ok_0.tag == before.next_tag
        &&& r->Ok_0.bytes@ == spec_frame(mtype, encode(fields))
        &&& after.msize == before.msize
        &&& after.nextfid == before.nextfid
        &&& after.next_tag == before.next_tag + 1
        &&& after.pending@ == before.pending@.insert(before.next_tag)
    }
}

/// The error that a reply of another type than the wanted type `want`
/// stands for.
pub open spec fn spec_refusal(data: Seq<u8>, want: u8, e: Error) -> bool {
    if data.len() == 0 {
        e == Error::Decode
    } else if data[0] == RERROR {
        match decode(rerror_kinds(), data.skip(1)) {
            Some(fs) => e matches Error::Remote(s) && Field::Text(s@) == fs[1],
            None => e == Error::Decode,
        }
    } else {
        data[0] != want && e == (Error::UnknownType { got: data[0], want })
    }
}

impl Conn {
    /// Every tag that waits has been given out or is the tag of the request
    /// for a version; the message size is one that can be used.
    pub open spec fn wf(&self) -> bool {
        &&& forall|t: u16| #[trigger] self.pending@.contains(t) ==> t < self.next_tag || t == NOTAG
        &&& IOHDRSZ < self.msize <= MSIZE
    }

    /// Whether `fid` is at most the last fid given out: every fid that the
    /// connection has given out is, and no fid that it gives out later.
    pub open spec fn given_out(&self, fid: u32) -> bool {
        fid <= self.nextfid
    }

    /// Whether the request with the tag `tag` waits for its reply.
    pub open spec fn outstanding(&self, tag: u16) -> bool {
        self.pending@.contains(tag)
    }

    /// A connection on which nothing has been sent. It asks for the largest
    /// message size.
    pub fn new() -> (c: Conn)
        ensures
            c.wf(),
            c.msize == MSIZE,
            c.nextfid == 1,
            c.next_tag == 0,
            c.pending@ == Set::<u16>::empty(),
    {
        Conn { msize: MSIZE, nextfid: 1, next_tag: 0, pending: HashSet::new() }
    }

    /// A fid that has not been given out before.
    pub fn newfid(&mut self) -> (r: Result<u32, Error>)
        ensures
            match r {
                Ok(fid) => {
                    &&& old(self).nextfid < NOFID - 1
                    &&& fid == old(self).nextfid + 1
                    &&& final(self).nextfid == fid
                    &&& fid != NOFID
                    &&& !old(self).given_out(fid)
                    &&& final(self).given_out(fid)
                    &&& forall|f: u32| old(self).given_out(f) ==> final(self).given_out(f) && f != fid
                },
                Err(e) => {
                    &&& e == Error::OutOfFids
                    &&& old(self).nextfid >= NOFID - 1
                    &&& final(self).nextfid == old(self).nextfid
                },
            },
            final(self).msize == old(self).msize,
            final(self).next_tag == old(self).next_tag,
            final(self).pending == old(self).pending,
    {
        if self.nextfid >= NOFID - 1 {
            return Err(Error::OutOfFids);
        }
        self.nextfid = self.nextfid + 1;
        Ok(self.nextfid)
    }

    /// The message of type `mtype` with the fields `body`.
    fn send_msg(&self, mtype: u8, body: Vec<u8>) -> (r: Result<Vec<u8>, Error>)
        requires
            self.msize <= MSIZE,
        ensures
            match r {
                Ok(v) => body@.len() <= self.msize && v@ == spec_frame(mtype, body@),
                Err(e) => e == Error::TooLarge && body@.len() > self.msize,
            },
    {
        if body.len() > self.msize as usize {
            return Err(Error::TooLarge);
        }
        let mut v: Vec<u8> = Vec::new();
        put_u32_le(&mut v, body.len() as u32 + 5);
        v.push(mtype);
        let mut body = body;
        v.append(&mut body);
        Ok(v)
    }

    /// Reserves the next tag for a request: the tag waits for its reply from
    /// now on, and the request after it gets the tag after it. No tag is
    /// reserved, and nothing changes, where the tags are used up.
    pub fn new_tag(&mut self) -> (r: Result<u16, Error>)
        requires
            old(self).wf(),
        ensures
            final(self).wf(),
            match r {
                Ok(t) => {
                    &&& t == old(self).next_tag
                    &&& t != NOTAG
                    &&& !old(self).outstanding(t)
                    &&& final(self).next_tag == t + 1
                    &&& final(self).pending@ == old(self).pending@.insert(t)
                    &&& final(self).msize == old(self).msize
                    &&& final(self).nextfid == old(self).nextfid
                },
                Err(e) => {
                    &&& e == Error::OutOfTags
                    &&& old(self).next_tag == NOTAG
                    &&& *final(self) == *old(self)
                },
            },
    {
        if self.next_tag == NOTAG {
            return Err(Error::OutOfTags);
        }
        let tag = self.next_tag;
        self.next_tag = tag + 1;
        self.pending.insert(tag);
        Ok(tag)
    }

    /// Makes the message of the request with the fields `body`, which carry
    /// the next tag, and reserves that tag for it.
    fn rpc(
        &mut self,
        mtype: u8,
        body: Result<Vec<u8>, nine::ser::SerError>,
        Ghost(fields): Ghost<Seq<Field>>,
    ) -> (r: Result<Request, Error>)
        requires
            old(self).wf(),
            body is Ok == encodable(fields),
            body matches Ok(v) ==> v@ == encode(fields),
        ensures
            final(self).wf(),
            sends(*old(self), *final(self), r, mtype, fields),
    {
        if self.next_tag == NOTAG {
            return Err(Error::OutOfTags);
        }
        let body = match body {
            Ok(b) => b,
            Err(_) => {
                return Err(Error::Encode);
            },
        };
        let bytes = match self.send_msg(mtype, body) {
            Ok(b) => b,
            Err(e) => {
                return Err(e);
            },
        };
        match self.new_tag() {
            Ok(tag) => Ok(Request { tag, bytes }),
            Err(e) => Err(e),
        }
    }

    /// The request that opens the connection: it asks for the version
    /// `9P2000` and the message size of the connection, under the tag that
    /// stands for no tag. No request is made, and nothing changes, where such
    /// a request waits for its reply already, or where the message cannot be
    /// made.
    pub fn version(&mut self) -> (r: Result<Request, Error>)
        requires
            old(self).wf(),
        ensures
            final(self).wf(),
            ({
                let fields = tversion_fields(NOTAG, old(self).msize, "9P2000"@);
                if old(self).outstanding(NOTAG) {
                    r == Err::<Request, Error>(Error::OutOfTags) && *final(self) == *old(self)
                } else if !encodable(fields) {
                    r == Err::<Request, Error>(Error::Encode) && *final(self) == *old(self)
                } else if encode(fields).len() > old(self).msize {
                    r == Err::<Request, Error>(Error::TooLarge) && *final(self) == *old(self)
                } else {
                    &&& r is Ok
                    &&& r->Ok_0.tag == NOTAG
                    &&& r->Ok_0.bytes@ == spec_frame(TVERSION, encode(fields))
                    &&& final(self).msize == old(self).msize
                    &&& final(self).nextfid == old(self).nextfid
                    &&& final(self).next_tag == old(self).next_tag
                    &&& final(self).pending@ == old(self).pending@.insert(NOTAG)
                }
            }),
    {
        let no_tag: u16 = NOTAG;
        if self.pending.contains(&no_tag) {
            return Err(Error::OutOfTags);
        }
        let body = match encode_tversion(NOTAG, self.msize, "9P2000") {
            Ok(b) => b,
            Err(_) => {
                return Err(Error::Encode);
            },
        };
        let bytes = match self.send_msg(TVERSION, body) {
            Ok(b) => b,
            Err(e) => {
                return Err(e);
            },
        };
        self.pending.insert(NOTAG);
        Ok(Request { tag: NOTAG, bytes })
    }

    /// The request that attaches the user `user` to the tree `aname`, with a
    /// new fid for its root and without authentication.
    pub fn attach(&mut self, newfid: u32, user: &str, aname: &str) -> (r: Result<Request, Error>)
        requires
            old(self).wf(),
        ensures
            final(self).wf(),
            sends(
                *old(self),
                *final(self),
                r,
                TATTACH,
                tattach_fields(old(self).next_tag, newfid, NOFID, user@, aname@),
            ),
    {
        let body = encode_tattach(self.next_tag, newfid, NOFID, user, aname);
        self.rpc(
            TATTACH,
            body,
            Ghost(tattach_fields(self.next_tag, newfid, NOFID, user@, aname@)),
        )
    }

    /// The request that walks from `fid` along the names `wname` and gives
    /// the file reached the fid `newfid`.
    pub fn walk(&mut self, fid: u32, newfid: u32, wname: &Vec<String>) -> (r: Result<Request, Error>)
        requires
            old(self).wf(),
        ensures
            final(self).wf(),
            sends(
                *old(self),
                *final(self),
                r,
                TWALK,
                twalk_fields(old(self).next_tag, fid, newfid, views(wname@)),
            ),
    {
        let body = encode_twalk(self.next_tag, fid, newfid, wname);
        self.rpc(TWALK, body, Ghost(twalk_fields(self.next_tag, fid, newfid, views(wname@))))
    }

    /// The request that opens `fid` in the mode `mode`.
    pub fn open(&mut self, fid: u32, mode: u8) -> (r: Result<Request, Error>)
        requires
            old(self).wf(),
        ensures
            final(self).wf(),
            sends(*old(self), *final(self), r, TOPEN, topen_fields(old(self).next_tag, fid, mode)),
    {
        let body = encode_topen(self.next_tag, fid, mode);
        self.rpc(TOPEN, body, Ghost(topen_fields(self.next_tag, fid, mode)))
    }

    /// The request that reads `count` bytes of `fid` from `offset` on.
    pub fn read(&mut self, fid: u32, offset: u64, count: u32) -> (r: Result<Request, Error>)
        requires
            old(self).wf(),
        ensures
            final(self).wf(),
            sends(
                *old(self),
                *final(self),
                r,
                TREAD,
                tread_fields(old(self).next_tag, fid, offset, count),
            ),
    {
        let body = encode_tread(self.next_tag, fid, offset, count);
        self.rpc(TREAD, body, Ghost(tread_fields(self.next_tag, fid, offset, count)))
    }

    /// The request that writes `data` to `fid` from `offset` on.
    pub fn write(&mut self, fid: u32, offset: u64, data: Vec<u8>) -> (r: Result<Request, Error>)
        requires
            old(self).wf(),
        ensures
            final(self).wf(),
            sends(
                *old(self),
                *final(self),
                r,
                TWRITE,
                twrite_fields(old(self).next_tag, fid, offset, data@),
            ),
    {
        let ghost fields = twrite_fields(self.next_tag, fid, offset, data@);
        let body = encode_twrite(self.next_tag, fid, offset, data);
        self.rpc(TWRITE, body, Ghost(fields))
    }

    /// The request that lets go of `fid`.
    pub fn clunk(&mut self, fid: u32) -> (r: Result<Request, Error>)
        requires
            old(self).wf(),
        ensures
            final(self).wf(),
            sends(*old(self), *final(self), r, TCLUNK, tclunk_fields(old(self).next_tag, fid)),
    {
        let body = encode_tclunk(self.next_tag, fid);
        self.rpc(TCLUNK, body, Ghost(tclunk_fields(self.next_tag, fid)))
    }

    /// What the five bytes before a message say: the number of bytes that
    /// follow, and the type of the message. A size that does not count
    /// these five bytes cannot be read.
    pub fn read_header(header: &[u8]) -> (r: Result<(u32, u8), Error>)
        requires
            header@.len() == 5,
        ensures
            match r {
                Ok(h) => {
                    &&& spec_u32_from_le_bytes(header@.take(4)) >= 5
                    &&& h.0 == spec_u32_from_le_bytes(header@.take(4)) - 5
                    &&& h.1 == header@[4]
                },
                Err(e) => e == Error::Decode && spec_u32_from_le_bytes(header@.take(4)) < 5,
            },
    {
        let first = &header[0..4];
        assert(first@ == header@.take(4));
        let size = vstd::bytes::u32_from_le_bytes(first);
        if size < 5 {
            return Err(Error::Decode);
        }
        Ok((size - 5, header[4]))
    }

    /// A message of type `mtype` with the fields `body` has come: it is the
    /// reply to the request whose tag it starts with, and that request waits
    /// no longer. Gives the tag and the reply: the type, then the fields.
    pub fn deliver(&mut self, mtype: u8, body: Vec<u8>) -> (r: Result<(u16, Vec<u8>), Error>)
        requires
            old(self).wf(),
        ensures
            final(self).wf(),
            final(self).msize == old(self).msize,
            final(self).nextfid == old(self).nextfid,
            final(self).next_tag == old(self).next_tag,
            match r {
                Ok(d) => {
                    &&& body@.len() >= 2
                    &&& d.0 == spec_u16_from_le_bytes(body@.take(2))
                    &&& d.1@ == seq![mtype] + body@
                    &&& old(self).outstanding(d.0)
                    &&& !final(self).outstanding(d.0)
                    &&& final(self).pending@ == old(self).pending@.remove(d.0)
                },
                Err(e) => {
                    &&& final(self).pending == old(self).pending
                    &&& if body@.len() < 2 {
                        e == Error::Decode
                    } else {
                        let tag = spec_u16_from_le_bytes(body@.take(2));
                        e == Error::UnexpectedTag(tag) && !old(self).outstanding(tag)
                    }
                },
            },
    {
        if body.len() < 2 {
            return Err(Error::Decode);
        }
        let first = &body.as_slice()[0..2];
        assert(first@ == body@.take(2));
        let tag = vstd::bytes::u16_from_le_bytes(first);
        if !self.pending.contains(&tag) {
            return Err(Error::UnexpectedTag(tag));
        }
        self.pending.remove(&tag);
        let mut data: Vec<u8> = Vec::new();
        data.push(mtype);
        let mut body = body;
        data.append(&mut body);
        Ok((tag, data))
    }

    /// Tells a reply of the wanted type `want` from others. Gives the
    /// position of the reply's fields in `data`.
    fn read_msg(data: &[u8], want: u8) -> (r: Result<(), Error>)
        ensures
            match r {
                Ok(_) => data@.len() > 0 && data@[0] == want,
                Err(e) => spec_refusal(data@, want, e),
            },
    {
        if data.len() == 0 {
            return Err(Error::Decode);
        }
        let mtype = data[0];
        if mtype == want {
            return Ok(());
        }
        if mtype == RERROR {
            let body = &data[1..data.len()];
            assert(body@ == data@.skip(1));
            return match decode_rerror(body) {
                Ok((_, ename)) => {
                    assert(decode(rerror_kinds(), data@.skip(1))->0[1] == Field::Text(ename@));
                    Err(Error::Remote(ename))
                },
                Err(_) => Err(Error::Decode),
            };
        }
        Err(Error::UnknownType { got: mtype, want })
    }

    /// The reply to the request for a version: the message size becomes the
    /// server's. A message size that is larger than the one asked for, or so
    /// small that no data fits into a message, and a version other than
    /// `9P2000` are refused.
    pub fn version_reply(&mut self, data: &[u8]) -> (r: Result<(), Error>)
        requires
            old(self).wf(),
        ensures
            final(self).wf(),
            final(self).nextfid == old(self).nextfid,
            final(self).next_tag == old(self).next_tag,
            final(self).pending == old(self).pending,
            r is Err ==> final(self).msize == old(self).msize,
            if data@.len() > 0 && data@[0] == RVERSION {
                match decode(rversion_kinds(), data@.skip(1)) {
                    None => r == Err::<(), Error>(Error::Decode),
                    Some(fs) => {
                        let msize = fs[1]->U32_0;
                        let version = fs[2]->Text_0;
                        if msize > old(self).msize || msize <= IOHDRSZ {
                            r == Err::<(), Error>(Error::InvalidMsize(msize))
                        } else if version != "9P2000"@ {
                            r matches Err(Error::InvalidVersion(v)) && v@ == version
                        } else {
                            r is Ok && final(self).msize == msize
                        }
                    },
                }
            } else {
                r is Err && spec_refusal(data@, RVERSION, r->Err_0)
            },
    {
        if let Err(e) = Conn::read_msg(data, RVERSION) {
            return Err(e);
        }
        let body = &data[1..data.len()];
        assert(body@ == data@.skip(1));
        let (_, msize, version) = match decode_rversion(body) {
            Ok(m) => m,
            Err(_) => {
                return Err(Error::Decode);
            },
        };
        if msize > self.msize || msize <= IOHDRSZ {
            return Err(Error::InvalidMsize(msize));
        }
        if !str_eq(version.as_str(), "9P2000") {
            return Err(Error::InvalidVersion(version));
        }
        self.msize = msize;
        Ok(())
    }

    /// The reply to an attach: the qid of the root.
    pub fn attach_reply(data: &[u8]) -> (r: Result<Qid, Error>)
        ensures
            if data@.len() > 0 && data@[0] == RATTACH {
                match decode(rattach_kinds(), data@.skip(1)) {
                    None => r == Err::<Qid, Error>(Error::Decode),
                    Some(fs) => r == Ok::<Qid, Error>(fs[1]->Qid_0),
                }
            } else {
                r is Err && spec_refusal(data@, RATTACH, r->Err_0)
            },
    {
        if let Err(e) = Conn::read_msg(data, RATTACH) {
            return Err(e);
        }
        let body = &data[1..data.len()];
        assert(body@ == data@.skip(1));
        match decode_rattach(body) {
            Ok((_, qid)) => Ok(qid),
            Err(_) => Err(Error::Decode),
        }
    }

    /// The reply to a walk: the qids of the files walked through.
    pub fn walk_reply(data: &[u8]) -> (r: Result<Vec<Qid>, Error>)
        ensures
            if data@.len() > 0 && data@[0] == RWALK {
                match decode(rwalk_kinds(), data@.skip(1)) {
                    None => r == Err::<Vec<Qid>, Error>(Error::Decode),
                    Some(fs) => r is Ok && r->Ok_0@ == fs[1]->Qids_0,
                }
            } else {
                r is Err && spec_refusal(data@, RWALK, r->Err_0)
            },
    {
        if let Err(e) = Conn::read_msg(data, RWALK) {
            return Err(e);
        }
        let body = &data[1..data.len()];
        assert(body@ == data@.skip(1));
        match decode_rwalk(body) {
            Ok((_, wqid)) => Ok(wqid),
            Err(_) => Err(Error::Decode),
        }
    }

    /// The reply to an open.
    pub fn open_reply(data: &[u8]) -> (r: Result<(), Error>)
        ensures
            if data@.len() > 0 && data@[0] == ROPEN {
                match decode(ropen_kinds(), data@.skip(1)) {
                    None => r == Err::<(), Error>(Error::Decode),
                    Some(fs) => r is Ok,
                }
            } else {
                r is Err && spec_refusal(data@, ROPEN, r->Err_0)
            },
    {
        if let Err(e) = Conn::read_msg(data, ROPEN) {
            return Err(e);
        }
        let body = &data[1..data.len()];
        assert(body@ == data@.skip(1));
        match decode_ropen(body) {
            Ok(_) => Ok(()),
            Err(_) => Err(Error::Decode),
        }
    }

    /// The reply to a read: the bytes read.
    pub fn read_reply(data: &[u8]) -> (r: Result<Vec<u8>, Error>)
        ensures
            if data@.len() > 0 && data@[0] == RREAD {
                match decode(rread_kinds(), data@.skip(1)) {
                    None => r == Err::<Vec<u8>, Error>(Error::Decode),
                    Some(fs) => r is Ok && r->Ok_0@ == fs[1]->Bytes_0,
                }
            } else {
                r is Err && spec_refusal(data@, RREAD, r->Err_0)
            },
    {
        if let Err(e) = Conn::read_msg(data, RREAD) {
            return Err(e);
        }
        let body = &data[1..data.len()];
        assert(body@ == data@.skip(1));
        match decode_rread(body) {
            Ok((_, d)) => Ok(d),
            Err(_) => Err(Error::Decode),
        }
    }

    /// The reply to a write: the number of bytes written.
    pub fn write_reply(data: &[u8]) -> (r: Result<u32, Error>)
        ensures
            if data@.len() > 0 && data@[0] == RWRITE {
                match decode(rwrite_kinds(), data@.skip(1)) {
                    None => r == Err::<u32, Error>(Error::Decode),
                    Some(fs) => r == Ok::<u32, Error>(fs[1]->U32_0),
                }
            } else {
                r is Err && spec_refusal(data@, RWRITE, r->Err_0)
            },
    {
        if let Err(e) = Conn::read_msg(data, RWRITE) {
            return Err(e);
        }
        let body = &data[1..data.len()];
        assert(body@ == data@.skip(1));
        match decode_rwrite(body) {
            Ok((_, n)) => Ok(n),
            Err(_) => Err(Error::Decode),
        }
    }

    /// The reply to a clunk.
    pub fn clunk_reply(data: &[u8]) -> (r: Result<(), Error>)
        ensures
            if data@.len() > 0 && data@[0] == RCLUNK {
                match decode(rclunk_kinds(), data@.skip(1)) {
                    None => r == Err::<(), Error>(Error::Decode),
                    Some(fs) => r is Ok,
                }
            } else {
                r is Err && spec_refusal(data@, RCLUNK, r->Err_0)
            },
    {
        if let Err(e) = Conn::read_msg(data, RCLUNK) {
            return Err(e);
        }
        let body = &data[1..data.len()];
        assert(body@ == data@.skip(1));
        match decode_rclunk(body) {
            Ok(_) => Ok(()),
            Err(_) => Err(Error::Decode),
        }
    }
}

/// A request that has been made waits for its reply under a tag under which
/// nothing waited before, and once its reply has been taken the tags that
/// wait are those that waited before the request.
pub proof fn lemma_request_then_reply(
    before: Conn,
    mid: Conn,
    req: Request,
    fields: Seq<Field>,
    mtype: u8,
)
    requires
        before.wf(),
        sends(before, mid, Ok(req), mtype, fields),
    ensures
        mid.wf(),
        !before.outstanding(req.tag),
        mid.outstanding(req.tag),
        forall|t: u16| t != req.tag ==> mid.outstanding(t) == before.outstanding(t),
        mid.pending@.remove(req.tag) == before.pending@,
{
    assert(mid.pending@.remove(req.tag) =~= before.pending@);
}

} // verus!
