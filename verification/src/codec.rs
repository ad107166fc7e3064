//! The bytes of 9P2000 messages: numbers with the low byte first, texts and
//! lists behind their lengths.
use vstd::prelude::*;
use vstd::bytes::{
    lemma_auto_spec_u16_to_from_le_bytes, lemma_auto_spec_u32_to_from_le_bytes,
    lemma_auto_spec_u64_to_from_le_bytes, spec_u16_from_le_bytes, spec_u16_to_le_bytes,
    spec_u32_from_le_bytes, spec_u32_to_le_bytes, spec_u64_from_le_bytes, spec_u64_to_le_bytes,
};
use vstd::utf8::{decode_utf8, encode_utf8, valid_utf8};

verus! {

/// The identity that a server gives a file.
#[derive(Clone, Copy, Debug, PartialEq, Eq, Structural)]
pub struct Qid {
    pub file_type: u8,
    pub version: u32,
    pub path: u64,
}

/// The kinds of fields that messages are made of.
pub enum Kind {
    U8,
    U16,
    U32,
    U64,
    /// A text, behind its length in two bytes.
    Text,
    /// Bytes, behind their number in four bytes.
    Bytes,
    /// Texts, behind their number in two bytes.
    Texts,
    Qid,
    /// Qids, behind their number in two bytes.
    Qids,
}

/// A field of a message.
pub enum Field {
    U8(u8),
    U16(u16),
    U32(u32),
    U64(u64),
    Text(Seq<char>),
    Bytes(Seq<u8>),
    Texts(Seq<Seq<char>>),
    Qid(Qid),
    Qids(Seq<Qid>),
}

/// The kind of the field `f`.
pub open spec fn kind_of(f: Field) -> Kind {
    match f {
        Field::U8(_) => Kind::U8,
        Field::U16(_) => Kind::U16,
        Field::U32(_) => Kind::U32,
        Field::U64(_) => Kind::U64,
        Field::Text(_) => Kind::Text,
        Field::Bytes(_) => Kind::Bytes,
        Field::Texts(_) => Kind::Texts,
        Field::Qid(_) => Kind::Qid,
        Field::Qids(_) => Kind::Qids,
    }
}

/// The kinds of the fields `fs`.
pub open spec fn kinds_of(fs: Seq<Field>) -> Seq<Kind> {
    fs.map_values(|f: Field| kind_of(f))
}

/// Whether the text `t` can be written: its bytes can be counted in two
/// bytes.
pub open spec fn text_fits(t: Seq<char>) -> bool {
    encode_utf8(t).len() <= 0xffff
}

/// The bytes of a text: the number of its bytes in UTF-8, then these bytes.
pub open spec fn text_bytes(t: Seq<char>) -> Seq<u8> {
    spec_u16_to_le_bytes(encode_utf8(t).len() as u16) + encode_utf8(t)
}

/// The bytes of a qid: type, version, path.
pub open spec fn qid_bytes(q: Qid) -> Seq<u8> {
    seq![q.file_type] + spec_u32_to_le_bytes(q.version) + spec_u64_to_le_bytes(q.path)
}

/// The bytes of the texts `ts`, one after the other.
pub open spec fn texts_bytes(ts: Seq<Seq<char>>) -> Seq<u8>
    decreases ts.len(),
{
    if ts.len() == 0 {
        Seq::empty()
    } else {
        text_bytes(ts[0]) + texts_bytes(ts.drop_first())
    }
}

/// The bytes of the qids `qs`, one after the other.
pub open spec fn qids_bytes(qs: Seq<Qid>) -> Seq<u8>
    decreases qs.len(),
{
    if qs.len() == 0 {
        Seq::empty()
    } else {
        qid_bytes(qs[0]) + qids_bytes(qs.drop_first())
    }
}

/// Whether all of the texts `ts` can be written.
pub open spec fn texts_fit(ts: Seq<Seq<char>>) -> bool {
    forall|i: int| 0 <= i < ts.len() ==> text_fits(#[trigger] ts[i])
}

/// Whether the field `f` can be written: its lengths can be counted in the
/// bytes there are for them.
pub open spec fn field_fits(f: Field) -> bool {
    match f {
        Field::Text(t) => text_fits(t),
        Field::Bytes(b) => b.len() <= u32::MAX - 8,
        Field::Texts(ts) => ts.len() <= 0xffff && texts_fit(ts),
        Field::Qids(qs) => qs.len() <= 0xffff,
        _ => true,
    }
}

/// The bytes of the field `f`.
pub open spec fn field_bytes(f: Field) -> Seq<u8> {
    match f {
        Field::U8(x) => seq![x],
        Field::U16(x) => spec_u16_to_le_bytes(x),
        Field::U32(x) => spec_u32_to_le_bytes(x),
        Field::U64(x) => spec_u64_to_le_bytes(x),
        Field::Text(t) => text_bytes(t),
        Field::Bytes(b) => spec_u32_to_le_bytes(b.len() as u32) + b,
        Field::Texts(ts) => spec_u16_to_le_bytes(ts.len() as u16) + texts_bytes(ts),
        Field::Qid(q) => qid_bytes(q),
        Field::Qids(qs) => spec_u16_to_le_bytes(qs.len() as u16) + qids_bytes(qs),
    }
}

/// The bytes of the fields `fs`, one after the other.
pub open spec fn encode(fs: Seq<Field>) -> Seq<u8>
    decreases fs.len(),
{
    if fs.len() == 0 {
        Seq::empty()
    } else {
        field_bytes(fs[0]) + encode(fs.drop_first())
    }
}

/// Whether the fields `fs` can be written as a message: each of them can be
/// written, and the number of their bytes can be counted in four bytes.
pub open spec fn encodable(fs: Seq<Field>) -> bool {
    &&& forall|i: int| 0 <= i < fs.len() ==> field_fits(#[trigger] fs[i])
    &&& encode(fs).len() <= u32::MAX
}

/// The text at the start of `s`, and what follows it.
pub open spec fn decode_text(s: Seq<u8>) -> Option<(Seq<char>, Seq<u8>)> {
    if s.len() < 2 {
        None
    } else {
        let n = spec_u16_from_le_bytes(s.take(2)) as int;
        if s.len() < 2 + n || !valid_utf8(s.subrange(2, 2 + n)) {
            None
        } else {
            Some((decode_utf8(s.subrange(2, 2 + n)), s.skip(2 + n)))
        }
    }
}

/// The qid at the start of `s`, and what follows it.
pub open spec fn decode_qid(s: Seq<u8>) -> Option<(Qid, Seq<u8>)> {
    if s.len() < 13 {
        None
    } else {
        Some(
            (
                Qid {
                    file_type: s[0],
                    version: spec_u32_from_le_bytes(s.subrange(1, 5)),
                    path: spec_u64_from_le_bytes(s.subrange(5, 13)),
                },
                s.skip(13),
            ),
        )
    }
}

/// The `n` texts at the start of `s`, and what follows them.
pub open spec fn decode_texts(n: nat, s: Seq<u8>) -> Option<(Seq<Seq<char>>, Seq<u8>)>
    decreases n,
{
    if n == 0 {
        Some((Seq::empty(), s))
    } else {
        match decode_text(s) {
            None => None,
            Some((t, rest)) => match decode_texts((n - 1) as nat, rest) {
                None => None,
                Some((ts, rest2)) => Some((seq![t] + ts, rest2)),
            },
        }
    }
}

/// The `n` qids at the start of `s`, and what follows them.
pub open spec fn decode_qids(n: nat, s: Seq<u8>) -> Option<(Seq<Qid>, Seq<u8>)>
    decreases n,
{
    if n == 0 {
        Some((Seq::empty(), s))
    } else {
        match decode_qid(s) {
            None => None,
            Some((q, rest)) => match decode_qids((n - 1) as nat, rest) {
                None => None,
                Some((qs, rest2)) => Some((seq![q] + qs, rest2)),
            },
        }
    }
}

/// The field of kind `k` at the start of `s`, and what follows it.
pub open spec fn decode_field(k: Kind, s: Seq<u8>) -> Option<(Field, Seq<u8>)> {
    match k {
        Kind::U8 => if s.len() < 1 {
            None
        } else {
            Some((Field::U8(s[0]), s.skip(1)))
        },
        Kind::U16 => if s.len() < 2 {
            None
        } else {
            Some((Field::U16(spec_u16_from_le_bytes(s.take(2))), s.skip(2)))
        },
        Kind::U32 => if s.len() < 4 {
            None
        } else {
            Some((Field::U32(spec_u32_from_le_bytes(s.take(4))), s.skip(4)))
        },
        Kind::U64 => if s.len() < 8 {
            None
        } else {
            Some((Field::U64(spec_u64_from_le_bytes(s.take(8))), s.skip(8)))
        },
        Kind::Text => match decode_text(s) {
            Some((t, rest)) => Some((Field::Text(t), rest)),
            None => None,
        },
        Kind::Bytes => if s.len() < 4 {
            None
        } else {
            let n = spec_u32_from_le_bytes(s.take(4)) as int;
            if s.len() < 4 + n {
                None
            } else {
                Some((Field::Bytes(s.subrange(4, 4 + n)), s.skip(4 + n)))
            }
        },
        Kind::Texts => if s.len() < 2 {
            None
        } else {
            match decode_texts(spec_u16_from_le_bytes(s.take(2)) as nat, s.skip(2)) {
                Some((ts, rest)) => Some((Field::Texts(ts), rest)),
                None => None,
            }
        },
        Kind::Qid => match decode_qid(s) {
            Some((q, rest)) => Some((Field::Qid(q), rest)),
            None => None,
        },
        Kind::Qids => if s.len() < 2 {
            None
        } else {
            match decode_qids(spec_u16_from_le_bytes(s.take(2)) as nat, s.skip(2)) {
                Some((qs, rest)) => Some((Field::Qids(qs), rest)),
                None => None,
            }
        },
    }
}

/// The fields of the kinds `ks` at the start of `s`, in order; bytes behind
/// them are passed over.
pub open spec fn decode(ks: Seq<Kind>, s: Seq<u8>) -> Option<Seq<Field>>
    decreases ks.len(),
{
    if ks.len() == 0 {
        Some(Seq::empty())
    } else {
        match decode_field(ks[0], s) {
            None => None,
            Some((f, rest)) => match decode(ks.drop_first(), rest) {
                None => None,
                Some(fs) => Some(seq![f] + fs),
            },
        }
    }
}

pub proof fn lemma_text_round_trip(t: Seq<char>, rest: Seq<u8>)
    requires
        text_fits(t),
    ensures
        decode_text(text_bytes(t) + rest) == Some((t, rest)),
{
    lemma_auto_spec_u16_to_from_le_bytes();
    vstd::utf8::encode_utf8_valid_utf8(t);
    vstd::utf8::encode_utf8_decode_utf8(t);
    let e = encode_utf8(t);
    let n = e.len() as u16;
    let s = text_bytes(t) + rest;
    assert(s.take(2) == spec_u16_to_le_bytes(n));
    assert(s.subrange(2, 2 + n) == e);
    assert(s.skip(2 + n) == rest);
}

pub proof fn lemma_qid_round_trip(q: Qid, rest: Seq<u8>)
    ensures
        decode_qid(qid_bytes(q) + rest) == Some((q, rest)),
{
    lemma_auto_spec_u32_to_from_le_bytes();
    lemma_auto_spec_u64_to_from_le_bytes();
    let s = qid_bytes(q) + rest;
    assert(s.subrange(1, 5) == spec_u32_to_le_bytes(q.version));
    assert(s.subrange(5, 13) == spec_u64_to_le_bytes(q.path));
    assert(s.skip(13) == rest);
    assert(s[0] == q.file_type);
}

pub proof fn lemma_texts_round_trip(ts: Seq<Seq<char>>, rest: Seq<u8>)
    requires
        texts_fit(ts),
    ensures
        decode_texts(ts.len(), texts_bytes(ts) + rest) == Some((ts, rest)),
    decreases ts.len(),
{
    if ts.len() > 0 {
        let tail = ts.drop_first();
        assert(texts_fit(tail)) by {
            assert forall|i: int| 0 <= i < tail.len() implies text_fits(#[trigger] tail[i]) by {
                assert(tail[i] == ts[i + 1]);
            }
        }
        lemma_text_round_trip(ts[0], texts_bytes(tail) + rest);
        lemma_texts_round_trip(tail, rest);
        assert(texts_bytes(ts) + rest == text_bytes(ts[0]) + (texts_bytes(tail) + rest));
        assert(seq![ts[0]] + tail == ts);
    } else {
        assert(texts_bytes(ts) + rest == rest);
        assert(ts == Seq::<Seq<char>>::empty());
    }
}

pub proof fn lemma_qids_round_trip(qs: Seq<Qid>, rest: Seq<u8>)
    ensures
        decode_qids(qs.len(), qids_bytes(qs) + rest) == Some((qs, rest)),
    decreases qs.len(),
{
    if qs.len() > 0 {
        let tail = qs.drop_first();
        lemma_qid_round_trip(qs[0], qids_bytes(tail) + rest);
        lemma_qids_round_trip(tail, rest);
        assert(qids_bytes(qs) + rest == qid_bytes(qs[0]) + (qids_bytes(tail) + rest));
        assert(seq![qs[0]] + tail == qs);
    } else {
        assert(qids_bytes(qs) + rest == rest);
        assert(qs == Seq::<Qid>::empty());
    }
}

pub proof fn lemma_field_round_trip(f: Field, rest: Seq<u8>)
    requires
        field_fits(f),
    ensures
        decode_field(kind_of(f), field_bytes(f) + rest) == Some((f, rest)),
{
    lemma_auto_spec_u16_to_from_le_bytes();
    lemma_auto_spec_u32_to_from_le_bytes();
    lemma_auto_spec_u64_to_from_le_bytes();
    let s = field_bytes(f) + rest;
    match f {
        Field::U8(x) => {
            assert(s.skip(1) == rest);
            assert(s[0] == x);
        },
        Field::U16(x) => {
            assert(s.take(2) == spec_u16_to_le_bytes(x));
            assert(s.skip(2) == rest);
        },
        Field::U32(x) => {
            assert(s.take(4) == spec_u32_to_le_bytes(x));
            assert(s.skip(4) == rest);
        },
        Field::U64(x) => {
            assert(s.take(8) == spec_u64_to_le_bytes(x));
            assert(s.skip(8) == rest);
        },
        Field::Text(t) => {
            lemma_text_round_trip(t, rest);
        },
        Field::Bytes(b) => {
            let n = b.len() as u32;
            assert(s.take(4) == spec_u32_to_le_bytes(n));
            assert(s.subrange(4, 4 + n) == b);
            assert(s.skip(4 + n) == rest);
        },
        Field::Texts(ts) => {
            let n = ts.len() as u16;
            assert(s.take(2) == spec_u16_to_le_bytes(n));
            assert(s.skip(2) == texts_bytes(ts) + rest);
            lemma_texts_round_trip(ts, rest);
        },
        Field::Qid(q) => {
            lemma_qid_round_trip(q, rest);
        },
        Field::Qids(qs) => {
            let n = qs.len() as u16;
            assert(s.take(2) == spec_u16_to_le_bytes(n));
            assert(s.skip(2) == qids_bytes(qs) + rest);
            lemma_qids_round_trip(qs, rest);
        },
    }
}

/// Writing the fields of a message and reading them back gives the same
/// fields, whatever bytes follow them.
pub proof fn lemma_round_trip(fs: Seq<Field>, rest: Seq<u8>)
    requires
        forall|i: int| 0 <= i < fs.len() ==> field_fits(#[trigger] fs[i]),
    ensures
        decode(kinds_of(fs), encode(fs) + rest) == Some(fs),
    decreases fs.len(),
{
    if fs.len() > 0 {
        let tail = fs.drop_first();
        assert forall|i: int| 0 <= i < tail.len() implies field_fits(#[trigger] tail[i]) by {
            assert(tail[i] == fs[i + 1]);
        }
        lemma_field_round_trip(fs[0], encode(tail) + rest);
        lemma_round_trip(tail, rest);
        assert(encode(fs) + rest == field_bytes(fs[0]) + (encode(tail) + rest));
        assert(kinds_of(fs).drop_first() == kinds_of(tail));
        assert(kinds_of(fs)[0] == kind_of(fs[0]));
        assert(seq![fs[0]] + tail == fs);
    } else {
        assert(kinds_of(fs) == Seq::<Kind>::empty());
        assert(fs == Seq::<Field>::empty());
    }
}

/// The type of the message that asks for a version.
pub const TVERSION: u8 = 100;

/// The type of the answer to `TVERSION`.
pub const RVERSION: u8 = 101;

pub const TATTACH: u8 = 104;

pub const RATTACH: u8 = 105;

/// The type of the message by which a server refuses a request.
pub const RERROR: u8 = 107;

pub const TWALK: u8 = 110;

pub const RWALK: u8 = 111;

pub const TOPEN: u8 = 112;

pub const ROPEN: u8 = 113;

pub const TREAD: u8 = 116;

pub const RREAD: u8 = 117;

pub const TWRITE: u8 = 118;

pub const RWRITE: u8 = 119;

pub const TCLUNK: u8 = 120;

pub const RCLUNK: u8 = 121;

/// The bits of an open mode that are written.
pub const MODE_BITS: u8 = 0x53;

pub open spec fn tversion_fields(tag: u16, msize: u32, version: Seq<char>) -> Seq<Field> {
    seq![Field::U16(tag), Field::U32(msize), Field::Text(version)]
}

pub open spec fn tattach_fields(
    tag: u16,
    fid: u32,
    afid: u32,
    uname: Seq<char>,
    aname: Seq<char>,
) -> Seq<Field> {
    seq![
        Field::U16(tag),
        Field::U32(fid),
        Field::U32(afid),
        Field::Text(uname),
        Field::Text(aname),
    ]
}

pub open spec fn twalk_fields(tag: u16, fid: u32, newfid: u32, wname: Seq<Seq<char>>) -> Seq<
    Field,
> {
    seq![Field::U16(tag), Field::U32(fid), Field::U32(newfid), Field::Texts(wname)]
}

pub open spec fn topen_fields(tag: u16, fid: u32, mode: u8) -> Seq<Field> {
    seq![Field::U16(tag), Field::U32(fid), Field::U8(mode & MODE_BITS)]
}

pub open spec fn tread_fields(tag: u16, fid: u32, offset: u64, count: u32) -> Seq<Field> {
    seq![Field::U16(tag), Field::U32(fid), Field::U64(offset), Field::U32(count)]
}

pub open spec fn twrite_fields(tag: u16, fid: u32, offset: u64, data: Seq<u8>) -> Seq<Field> {
    seq![Field::U16(tag), Field::U32(fid), Field::U64(offset), Field::Bytes(data)]
}

pub open spec fn tclunk_fields(tag: u16, fid: u32) -> Seq<Field> {
    seq![Field::U16(tag), Field::U32(fid)]
}

pub open spec fn rversion_kinds() -> Seq<Kind> {
    seq![Kind::U16, Kind::U32, Kind::Text]
}

pub open spec fn rattach_kinds() -> Seq<Kind> {
    seq![Kind::U16, Kind::Qid]
}

pub open spec fn rerror_kinds() -> Seq<Kind> {
    seq![Kind::U16, Kind::Text]
}

pub open spec fn rwalk_kinds() -> Seq<Kind> {
    seq![Kind::U16, Kind::Qids]
}

pub open spec fn ropen_kinds() -> Seq<Kind> {
    seq![Kind::U16, Kind::Qid, Kind::U32]
}

pub open spec fn rread_kinds() -> Seq<Kind> {
    seq![Kind::U16, Kind::Bytes]
}

pub open spec fn rwrite_kinds() -> Seq<Kind> {
    seq![Kind::U16, Kind::U32]
}

pub open spec fn rclunk_kinds() -> Seq<Kind> {
    seq![Kind::U16]
}

} // verus!
