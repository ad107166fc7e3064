//! The calls into other crates, and into the parts of the standard library
//! that come without a specification. Nothing here is proved: each contract
//! says what the called function is taken to do.
use vstd::prelude::*;

use crate::codec::{
    Field, Qid, decode, encodable, encode, rattach_kinds, rclunk_kinds, rerror_kinds, ropen_kinds,
    rread_kinds, rversion_kinds, rwalk_kinds, rwrite_kinds, tattach_fields, tclunk_fields,
    topen_fields, tread_fields, tversion_fields, twalk_fields, twrite_fields,
};
use crate::text::views;

verus! {

/// `String::push` appends the one character `c` to the string.
pub assume_specification[ std::string::String::push ](s: &mut std::string::String, c: char)
    ensures
        final(s)@ == old(s)@.push(c),
;

/// `core::str::from_utf8` gives the text that the bytes encode where they are
/// UTF-8, and nothing where they are not.
#[verifier::external_body]
pub(crate) fn str_from_utf8(bytes: &[u8]) -> (r: Option<&str>)
    ensures
        r is Some == vstd::utf8::valid_utf8(bytes@),
        r matches Some(s) ==> s@ == vstd::utf8::decode_utf8(bytes@),
{
    std::str::from_utf8(bytes).ok()
}

/// What `regex::Regex::is_match` returns for the text when the regex was made
/// from the pattern by `regex::Regex::new`; `None` where `new` refuses the
/// pattern.
pub uninterp spec fn regex_is_match(pattern: Seq<char>, text: Seq<char>) -> Option<bool>;

/// Compiles `pattern` with `regex::Regex::new` and asks `Regex::is_match`
/// whether it matches somewhere in `text`. The contract names the answer.
#[verifier::external_body]
pub(crate) fn regex_match(pattern: &str, text: &str) -> (r: Option<bool>)
    ensures
        r == regex_is_match(pattern@, text@),
{
    match regex::Regex::new(pattern) {
        Ok(re) => Some(re.is_match(text)),
        Err(_) => None,
    }
}

/// The text of group `group` in the first match that `regex::Regex::captures`
/// finds in the text, for the regex made from the pattern: `None` where the
/// pattern is refused, `Some(None)` where nothing matches or the group took
/// no part in the match.
pub uninterp spec fn regex_group(pattern: Seq<char>, text: Seq<char>, group: usize) -> Option<
    Option<Seq<char>>,
>;

/// Compiles `pattern` with `regex::Regex::new`, runs `Regex::captures` on
/// `text` and takes the text of group `group` with `Captures::get`. The
/// contract names the result.
#[verifier::external_body]
pub(crate) fn regex_capture(pattern: &str, text: &str, group: usize) -> (r: Option<Option<String>>)
    ensures
        match (r, regex_group(pattern@, text@, group)) {
            (Some(Some(s)), Some(Some(t))) => s@ == t,
            (Some(None), Some(None)) => true,
            (None, None) => true,
            _ => false,
        },
{
    match regex::Regex::new(pattern) {
        Ok(re) => Some(re.captures(text).and_then(|c| c.get(group)).map(|m| m.as_str().to_string())),
        Err(_) => None,
    }
}

/// What `regex::Regex::replace_all` makes of the text when every match of the
/// regex made from the pattern is replaced by nothing; `None` where the
/// pattern is refused.
pub uninterp spec fn regex_without(pattern: Seq<char>, text: Seq<char>) -> Option<Seq<char>>;

/// Compiles `pattern` with `regex::Regex::new` and takes every match out of
/// `text` with `Regex::replace_all`. The contract names the result.
#[verifier::external_body]
pub(crate) fn regex_remove_all(pattern: &str, text: &str) -> (r: Option<String>)
    ensures
        match (r, regex_without(pattern@, text@)) {
            (Some(s), Some(t)) => s@ == t,
            (None, None) => true,
            _ => false,
        },
{
    match regex::Regex::new(pattern) {
        Ok(re) => Some(re.replace_all(text, "").into_owned()),
        Err(_) => None,
    }
}

/// One piece of a comparison of two texts by lines: a line that only the old
/// text has, a line that both have, or a line that only the new text has.
#[derive(Debug, PartialEq, Eq)]
pub enum LineDiff {
    Left(String),
    Both(String, String),
    Right(String),
}

/// A [`LineDiff`] with its lines as sequences of characters.
pub enum DiffLine {
    Left(Seq<char>),
    Both(Seq<char>, Seq<char>),
    Right(Seq<char>),
}

impl View for LineDiff {
    type V = DiffLine;

    open spec fn view(&self) -> DiffLine {
        match self {
            LineDiff::Left(l) => DiffLine::Left(l@),
            LineDiff::Both(l, r) => DiffLine::Both(l@, r@),
            LineDiff::Right(r) => DiffLine::Right(r@),
        }
    }
}

/// The pieces that `diff::lines` returns for the two texts, in order.
pub uninterp spec fn line_diff(left: Seq<char>, right: Seq<char>) -> Seq<DiffLine>;

/// Compares `left` and `right` by lines with `diff::lines` and copies each
/// piece. The contract names the result.
#[verifier::external_body]
pub(crate) fn diff_lines(left: &str, right: &str) -> (r: Vec<LineDiff>)
    ensures
        r@.map_values(|d: LineDiff| d@) == line_diff(left@, right@),
{
    diff::lines(left, right).into_iter().map(|d| match d {
        diff::Result::Left(l) => LineDiff::Left(l.to_string()),
        diff::Result::Both(l, r) => LineDiff::Both(l.to_string(), r.to_string()),
        diff::Result::Right(r) => LineDiff::Right(r.to_string()),
    }).collect()
}

/// What `lsp_types::Url::parse` makes of the text: the address as
/// `Url::as_str` writes it and its path as `Url::path` gives it; `None` where
/// `parse` refuses the text.
pub uninterp spec fn url_parts(text: Seq<char>) -> Option<(Seq<char>, Seq<char>)>;

/// Parses `text` with `lsp_types::Url::parse` and returns the address in its
/// written form and its path. The contract names the result.
#[verifier::external_body]
pub(crate) fn url_parse(text: &str) -> (r: Option<(String, String)>)
    ensures
        match (r, url_parts(text@)) {
            (Some(p), Some(q)) => p.0@ == q.0 && p.1@ == q.1,
            (None, None) => true,
            _ => false,
        },
{
    match lsp_types::Url::parse(text) {
        Ok(u) => Some((u.as_str().to_string(), u.path().to_string())),
        Err(_) => None,
    }
}

/// The error of `nine`'s serializer.
#[verifier::external_type_specification]
#[verifier::external_body]
pub struct ExSerError(nine::ser::SerError);

/// The error of `nine`'s deserializer.
#[verifier::external_type_specification]
#[verifier::external_body]
pub struct ExDeError(nine::de::DeError);

/// `byteorder::WriteBytesExt::write_u32::<LittleEndian>` on a vector appends
/// the four bytes of `v`, the low byte first.
#[verifier::external_body]
pub(crate) fn put_u32_le(buf: &mut Vec<u8>, v: u32)
    ensures
        final(buf)@ == old(buf)@ + vstd::bytes::spec_u32_to_le_bytes(v),
{
    let _ = byteorder::WriteBytesExt::write_u32::<byteorder::LittleEndian>(buf, v);
}

/// `nine::ser::into_vec` on a `Tversion` writes tag, message size and
/// version, and fails where these cannot be written.
#[verifier::external_body]
pub(crate) fn encode_tversion(tag: u16, msize: u32, version: &str) -> (r: Result<
    Vec<u8>,
    nine::ser::SerError,
>)
    ensures
        r is Ok == encodable(tversion_fields(tag, msize, version@)),
        r matches Ok(v) ==> v@ == encode(tversion_fields(tag, msize, version@)),
{
    let mut buf = Vec::new();
    let t = nine::p2000::Tversion { tag, msize, version: version.to_string().into() };
    nine::ser::into_vec(&t, &mut buf).map(|_| buf)
}

/// `nine::ser::into_vec` on a `Tattach` writes tag, fid, afid, user name and
/// tree name, and fails where these cannot be written.
#[verifier::external_body]
pub(crate) fn encode_tattach(tag: u16, fid: u32, afid: u32, uname: &str, aname: &str) -> (r: Result<
    Vec<u8>,
    nine::ser::SerError,
>)
    ensures
        r is Ok == encodable(tattach_fields(tag, fid, afid, uname@, aname@)),
        r matches Ok(v) ==> v@ == encode(tattach_fields(tag, fid, afid, uname@, aname@)),
{
    let mut buf = Vec::new();
    let t = nine::p2000::Tattach {
        tag,
        fid,
        afid,
        uname: uname.to_string().into(),
        aname: aname.to_string().into(),
    };
    nine::ser::into_vec(&t, &mut buf).map(|_| buf)
}

/// `nine::ser::into_vec` on a `Twalk` writes tag, fid, new fid and the
/// names, and fails where these cannot be written.
#[verifier::external_body]
pub(crate) fn encode_twalk(tag: u16, fid: u32, newfid: u32, wname: &Vec<String>) -> (r: Result<
    Vec<u8>,
    nine::ser::SerError,
>)
    ensures
        r is Ok == encodable(twalk_fields(tag, fid, newfid, views(wname@))),
        r matches Ok(v) ==> v@ == encode(twalk_fields(tag, fid, newfid, views(wname@))),
{
    let mut buf = Vec::new();
    let t = nine::p2000::Twalk { tag, fid, newfid, wname: wname.clone() };
    nine::ser::into_vec(&t, &mut buf).map(|_| buf)
}

/// `nine::ser::into_vec` on a `Topen` writes tag, fid and the bits of the
/// mode that `OpenMode::from_bits_truncate` keeps.
#[verifier::external_body]
pub(crate) fn encode_topen(tag: u16, fid: u32, mode: u8) -> (r: Result<
    Vec<u8>,
    nine::ser::SerError,
>)
    ensures
        r is Ok == encodable(topen_fields(tag, fid, mode)),
        r matches Ok(v) ==> v@ == encode(topen_fields(tag, fid, mode)),
{
    let mut buf = Vec::new();
    let mode = nine::p2000::OpenMode::from_bits_truncate(mode);
    let t = nine::p2000::Topen { tag, fid, mode };
    nine::ser::into_vec(&t, &mut buf).map(|_| buf)
}

/// `nine::ser::into_vec` on a `Tread` writes tag, fid, offset and count.
#[verifier::external_body]
pub(crate) fn encode_tread(tag: u16, fid: u32, offset: u64, count: u32) -> (r: Result<
    Vec<u8>,
    nine::ser::SerError,
>)
    ensures
        r is Ok == encodable(tread_fields(tag, fid, offset, count)),
        r matches Ok(v) ==> v@ == encode(tread_fields(tag, fid, offset, count)),
{
    let mut buf = Vec::new();
    let t = nine::p2000::Tread { tag, fid, offset, count };
    nine::ser::into_vec(&t, &mut buf).map(|_| buf)
}

/// `nine::ser::into_vec` on a `Twrite` writes tag, fid, offset and the data
/// behind their number, and fails where these cannot be written.
#[verifier::external_body]
pub(crate) fn encode_twrite(tag: u16, fid: u32, offset: u64, data: Vec<u8>) -> (r: Result<
    Vec<u8>,
    nine::ser::SerError,
>)
    ensures
        r is Ok == encodable(twrite_fields(tag, fid, offset, data@)),
        r matches Ok(v) ==> v@ == encode(twrite_fields(tag, fid, offset, data@)),
{
    let mut buf = Vec::new();
    let t = nine::p2000::Twrite { tag, fid, offset, data };
    nine::ser::into_vec(&t, &mut buf).map(|_| buf)
}

/// `nine::ser::into_vec` on a `Tclunk` writes tag and fid.
#[verifier::external_body]
pub(crate) fn encode_tclunk(tag: u16, fid: u32) -> (r: Result<Vec<u8>, nine::ser::SerError>)
    ensures
        r is Ok == encodable(tclunk_fields(tag, fid)),
        r matches Ok(v) ==> v@ == encode(tclunk_fields(tag, fid)),
{
    let mut buf = Vec::new();
    let t = nine::p2000::Tclunk { tag, fid };
    nine::ser::into_vec(&t, &mut buf).map(|_| buf)
}

/// `nine::de::from_bytes` for an `Rversion` reads tag, message size and
/// version from the start of the bytes, and fails where they are not there.
#[verifier::external_body]
pub(crate) fn decode_rversion(body: &[u8]) -> (r: Result<(u16, u32, String), nine::de::DeError>)
    ensures
        match r {
            Ok(m) => decode(rversion_kinds(), body@) == Some(
                seq![Field::U16(m.0), Field::U32(m.1), Field::Text(m.2@)],
            ),
            Err(_) => decode(rversion_kinds(), body@) is None,
        },
{
    nine::de::from_bytes::<nine::p2000::Rversion, _>(body).map(
        |m| (m.tag, m.msize, m.version.into_owned()),
    )
}

/// `nine::de::from_bytes` for an `Rattach` reads tag and qid.
#[verifier::external_body]
pub(crate) fn decode_rattach(body: &[u8]) -> (r: Result<(u16, Qid), nine::de::DeError>)
    ensures
        match r {
            Ok(m) => decode(rattach_kinds(), body@) == Some(seq![Field::U16(m.0), Field::Qid(m.1)]),
            Err(_) => decode(rattach_kinds(), body@) is None,
        },
{
    nine::de::from_bytes::<nine::p2000::Rattach, _>(body).map(
        |m| (m.tag, crate::conn::qid_of(m.qid.file_type.bits(), m.qid.version, m.qid.path)),
    )
}

/// `nine::de::from_bytes` for an `Rerror` reads tag and the error's text.
#[verifier::external_body]
pub(crate) fn decode_rerror(body: &[u8]) -> (r: Result<(u16, String), nine::de::DeError>)
    ensures
        match r {
            Ok(m) => decode(rerror_kinds(), body@) == Some(seq![Field::U16(m.0), Field::Text(m.1@)]),
            Err(_) => decode(rerror_kinds(), body@) is None,
        },
{
    nine::de::from_bytes::<nine::p2000::Rerror, _>(body).map(|m| (m.tag, m.ename.into_owned()))
}

/// `nine::de::from_bytes` for an `Rwalk` reads tag and the qids behind
/// their number.
#[verifier::external_body]
pub(crate) fn decode_rwalk(body: &[u8]) -> (r: Result<(u16, Vec<Qid>), nine::de::DeError>)
    ensures
        match r {
            Ok(m) => decode(rwalk_kinds(), body@) == Some(seq![Field::U16(m.0), Field::Qids(m.1@)]),
            Err(_) => decode(rwalk_kinds(), body@) is None,
        },
{
    nine::de::from_bytes::<nine::p2000::Rwalk, _>(body).map(
        |m|
            (
                m.tag,
                m.wqid.iter().map(
                    |q| crate::conn::qid_of(q.file_type.bits(), q.version, q.path),
                ).collect(),
            ),
    )
}

/// `nine::de::from_bytes` for an `Ropen` reads tag, qid and the unit of
/// reads and writes.
#[verifier::external_body]
pub(crate) fn decode_ropen(body: &[u8]) -> (r: Result<(u16, Qid, u32), nine::de::DeError>)
    ensures
        match r {
            Ok(m) => decode(ropen_kinds(), body@) == Some(
                seq![Field::U16(m.0), Field::Qid(m.1), Field::U32(m.2)],
            ),
            Err(_) => decode(ropen_kinds(), body@) is None,
        },
{
    nine::de::from_bytes::<nine::p2000::Ropen, _>(body).map(
        |m|
            (
                m.tag,
                crate::conn::qid_of(m.qid.file_type.bits(), m.qid.version, m.qid.path),
                m.iounit,
            ),
    )
}

/// `nine::de::from_bytes` for an `Rread` reads tag and the data behind
/// their number.
#[verifier::external_body]
pub(crate) fn decode_rread(body: &[u8]) -> (r: Result<(u16, Vec<u8>), nine::de::DeError>)
    ensures
        match r {
            Ok(m) => decode(rread_kinds(), body@) == Some(seq![Field::U16(m.0), Field::Bytes(m.1@)]),
            Err(_) => decode(rread_kinds(), body@) is None,
        },
{
    nine::de::from_bytes::<nine::p2000::Rread, _>(body).map(|m| (m.tag, m.data))
}

/// `nine::de::from_bytes` for an `Rwrite` reads tag and count.
#[verifier::external_body]
pub(crate) fn decode_rwrite(body: &[u8]) -> (r: Result<(u16, u32), nine::de::DeError>)
    ensures
        match r {
            Ok(m) => decode(rwrite_kinds(), body@) == Some(seq![Field::U16(m.0), Field::U32(m.1)]),
            Err(_) => decode(rwrite_kinds(), body@) is None,
        },
{
    nine::de::from_bytes::<nine::p2000::Rwrite, _>(body).map(|m| (m.tag, m.count))
}

/// `nine::de::from_bytes` for an `Rclunk` reads the tag.
#[verifier::external_body]
pub(crate) fn decode_rclunk(body: &[u8]) -> (r: Result<u16, nine::de::DeError>)
    ensures
        match r {
            Ok(m) => decode(rclunk_kinds(), body@) == Some(seq![Field::U16(m)]),
            Err(_) => decode(rclunk_kinds(), body@) is None,
        },
{
    nine::de::from_bytes::<nine::p2000::Rclunk, _>(body).map(|m| m.tag)
}

} // verus!
