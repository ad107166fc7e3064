//! The language-server side: message envelopes, request ids and the framing
//! of messages on the wire.
use vstd::prelude::*;
use vstd::string::StringExecFns;

use crate::Error;
use crate::text::{
    byte_size, chars_of, decimal, parse_usize, push_decimal, spec_parse_usize, string_of, trim,
    trim_end_index, trim_start_index,
};

verus! {

/// The error of a response.
#[derive(Debug, PartialEq, Eq)]
pub struct ResponseError {
    pub code: i64,
    pub message: String,
    /// The error's data, as the server sent it.
    pub data: Option<String>,
}

/// A message from a server, with `params` and `result` as the server sent
/// them.
#[derive(Debug, PartialEq, Eq)]
pub struct DeMessage {
    pub id: Option<usize>,
    pub method: Option<String>,
    pub params: Option<String>,
    pub result: Option<String>,
    pub error: Option<ResponseError>,
}

/// What a message from a server is.
#[derive(Clone, Copy, Debug, PartialEq, Eq, Structural)]
pub enum MessageKind {
    /// An error for one of our requests.
    Error,
    /// A request of the server.
    Request,
    /// A response to one of our requests.
    Response,
    /// A notification of the server.
    Notification,
    /// Neither an id nor a method.
    Unknown,
}

impl DeMessage {
    /// What the fields that are present make of the message.
    pub open spec fn spec_kind(self) -> MessageKind {
        if self.id is Some && self.error is Some {
            MessageKind::Error
        } else if self.id is Some && self.method is Some {
            MessageKind::Request
        } else if self.id is Some {
            MessageKind::Response
        } else if self.method is Some {
            MessageKind::Notification
        } else {
            MessageKind::Unknown
        }
    }

    /// What the message is.
    pub fn kind(&self) -> (k: MessageKind)
        ensures
            k == self.spec_kind(),
    {
        if self.id.is_some() && self.error.is_some() {
            MessageKind::Error
        } else if self.id.is_some() && self.method.is_some() {
            MessageKind::Request
        } else if self.id.is_some() {
            MessageKind::Response
        } else if self.method.is_some() {
            MessageKind::Notification
        } else {
            MessageKind::Unknown
        }
    }
}

/// A language server as the coordinator knows it: its name, the pattern of
/// the file names it serves, and the id of its next request.
#[derive(Debug, PartialEq, Eq)]
pub struct Client {
    pub name: String,
    pub files: String,
    /// The id that the next request gets.
    pub next_id: usize,
}

impl Client {
    /// A client that has sent nothing: its first request gets the id 1.
    pub fn new(name: String, files: String) -> (c: Client)
        ensures
            c.name == name,
            c.files == files,
            c.next_id == 1,
    {
        Client { name, files, next_id: 1 }
    }

    /// The id for a new request; ids grow by one. `None` when they are used
    /// up.
    pub fn new_id(&mut self) -> (r: Option<usize>)
        ensures
            final(self).name == old(self).name,
            final(self).files == old(self).files,
            old(self).next_id < usize::MAX ==> r == Some(old(self).next_id) && final(self).next_id
                == old(self).next_id + 1,
            old(self).next_id == usize::MAX ==> r is None && final(self).next_id == old(self).next_id,
    {
        if self.next_id == usize::MAX {
            return None;
        }
        let id = self.next_id;
        self.next_id = id + 1;
        Some(id)
    }
}

/// A message body of `len` bytes behind its header.
pub open spec fn spec_frame(body: Seq<char>, len: nat) -> Seq<char> {
    "Content-Length: "@ + decimal(len) + "\r\n\r\n"@ + body
}

/// Puts the header with the length of `body` in bytes before `body`.
pub fn frame(body: &str) -> (s: String)
    ensures
        s@ == spec_frame(body@, byte_size(body@) as nat),
{
    let mut s = String::from_str("Content-Length: ");
    push_decimal(&mut s, body.len() as u64);
    s.append("\r\n\r\n");
    s.append(body);
    s
}

/// A request as it goes to a server: the version of the protocol, the id,
/// the method, and the parameters as they are written.
pub open spec fn spec_request_message(id: usize, method: Seq<char>, params: Seq<char>) -> Seq<char> {
    "{\"jsonrpc\":\"2.0\",\"id\":"@ + decimal(id as nat) + ",\"method\":\""@ + method
        + "\",\"params\":"@ + params + "}"@
}

/// A notification as it goes to a server: like a request, without an id.
pub open spec fn spec_notification_message(method: Seq<char>, params: Seq<char>) -> Seq<char> {
    "{\"jsonrpc\":\"2.0\",\"method\":\""@ + method + "\",\"params\":"@ + params + "}"@
}

/// The request with the id `id` for the method `method`, whose name needs no
/// escaping, with the parameters `params` as they are written.
pub fn request_message(id: usize, method: &str, params: &str) -> (s: String)
    ensures
        s@ == spec_request_message(id, method@, params@),
{
    let mut s = String::from_str("{\"jsonrpc\":\"2.0\",\"id\":");
    push_decimal(&mut s, id as u64);
    s.append(",\"method\":\"");
    s.append(method);
    s.append("\",\"params\":");
    s.append(params);
    s.append("}");
    s
}

/// The notification for the method `method`, whose name needs no escaping,
/// with the parameters `params` as they are written.
pub fn notification_message(method: &str, params: &str) -> (s: String)
    ensures
        s@ == spec_notification_message(method@, params@),
{
    let mut s = String::from_str("{\"jsonrpc\":\"2.0\",\"method\":\"");
    s.append(method);
    s.append("\",\"params\":");
    s.append(params);
    s.append("}");
    s
}

/// The kinds of code actions that the client says it understands.
pub open spec fn spec_code_action_kinds() -> Seq<Seq<char>> {
    seq![
        Seq::<char>::empty(),
        "quickfix"@,
        "refactor"@,
        "refactor.extract"@,
        "refactor.inline"@,
        "refactor.rewrite"@,
        "source"@,
        "source.organizeImports"@,
    ]
}

/// The kinds of code actions that the client says it understands.
pub fn code_action_kinds() -> (v: Vec<String>)
    ensures
        crate::text::views(v@) == spec_code_action_kinds(),
{
    let mut v: Vec<String> = Vec::new();
    v.push(String::new());
    v.push(String::from_str("quickfix"));
    v.push(String::from_str("refactor"));
    v.push(String::from_str("refactor.extract"));
    v.push(String::from_str("refactor.inline"));
    v.push(String::from_str("refactor.rewrite"));
    v.push(String::from_str("source"));
    v.push(String::from_str("source.organizeImports"));
    assert(crate::text::views(v@) == spec_code_action_kinds());
    v
}

/// The index of the first colon of `s` that a space follows, and the length
/// of `s` where there is none.
pub open spec fn first_sep(s: Seq<char>) -> int
    decreases s.len(),
{
    if s.len() < 2 {
        s.len() as int
    } else if s[0] == ':' && s[1] == ' ' {
        0
    } else {
        1 + first_sep(s.drop_first())
    }
}

pub proof fn lemma_first_sep(s: Seq<char>)
    ensures
        0 <= first_sep(s) <= s.len(),
        first_sep(s) < s.len() ==> first_sep(s) + 1 < s.len(),
    decreases s.len(),
{
    if s.len() >= 2 && !(s[0] == ':' && s[1] == ' ') {
        lemma_first_sep(s.drop_first());
    }
}

/// The index of the first colon of `v[from..]` that a space follows, counted
/// from `from`, and the length of `v[from..]` where there is none.
fn find_sep(v: &Vec<char>, from: usize) -> (i: usize)
    requires
        from <= v@.len(),
    ensures
        i == first_sep(v@.skip(from as int)),
        from + i <= v@.len(),
        from + i < v@.len() ==> from + i + 1 < v@.len(),
{
    let ghost s = v@.skip(from as int);
    let mut i: usize = from;
    assert(s.skip(0) == s);
    while v.len() - i >= 2 && !(v[i] == ':' && v[i + 1] == ' ')
        invariant
            from <= i <= v@.len(),
            s == v@.skip(from as int),
            first_sep(s) == (i - from) + first_sep(s.skip(i - from)),
        decreases v@.len() - i,
    {
        assert(s.skip(i - from)[0] == v@[i as int]);
        assert(s.skip(i - from)[1] == v@[i + 1]);
        assert(s.skip(i - from).drop_first() == s.skip(i - from + 1));
        i += 1;
    }
    proof {
        let t = s.skip(i - from);
        lemma_first_sep(t);
        if i + 1 < v@.len() {
            assert(t[0] == v@[i as int]);
            assert(t[1] == v@[i + 1]);
        } else {
            assert(t.len() < 2);
        }
    }
    if v.len() - i >= 2 {
        i - from
    } else {
        v.len() - from
    }
}

/// What a line of the header of a message says.
#[derive(Clone, Copy, Debug, PartialEq, Eq, Structural)]
pub enum HeaderLine {
    /// The header ends here.
    End,
    /// The body has this many bytes.
    ContentLength(usize),
}

/// The value of a header line `t` whose name ends at `a`: what stands behind
/// the colon and the space, up to the next colon with a space.
pub open spec fn header_value(t: Seq<char>, a: int) -> Seq<char> {
    let rest = t.skip(a + 2);
    rest.take(first_sep(rest))
}

/// What the line `line` of a header says. An empty line ends the header. Any
/// other line gives a name and a value, with a colon and a space between
/// them; the one name that is known is `Content-Length`, and its value is a
/// number.
pub open spec fn spec_header_line(line: Seq<char>) -> Result<HeaderLine, Error> {
    let t = trim(line);
    let a = first_sep(t);
    if t.len() == 0 {
        Ok(HeaderLine::End)
    } else if a >= t.len() {
        Err(Error::BadHeader)
    } else if t.take(a) != "Content-Length"@ {
        Err(Error::UnknownHeader)
    } else {
        match spec_parse_usize(header_value(t, a)) {
            Some(n) => Ok(HeaderLine::ContentLength(n)),
            None => Err(Error::Number),
        }
    }
}

/// What the line `line` of a header says.
pub fn parse_header(line: &str) -> (r: Result<HeaderLine, Error>)
    ensures
        r == spec_header_line(line@),
{
    let v = chars_of(line);
    let e = trim_end_index(&v);
    let b = trim_start_index(&v, e);
    let t: Vec<char> = vstd::slice::slice_to_vec(&v[b..e]);
    assert(t@ == trim(line@)) by {
        assert(v@.subrange(b as int, e as int) == v@.take(e as int).skip(b as int));
    }
    if t.len() == 0 {
        return Ok(HeaderLine::End);
    }
    assert(t@.skip(0) == t@);
    let a = find_sep(&t, 0);
    if a >= t.len() {
        return Err(Error::BadHeader);
    }
    let name = string_of(&t[0..a]);
    assert(t@.subrange(0, a as int) == t@.take(a as int));
    if !crate::text::str_eq(name.as_str(), "Content-Length") {
        return Err(Error::UnknownHeader);
    }
    let n = find_sep(&t, a + 2);
    let ghost rest = t@.skip(a + 2);
    assert(t@.subrange(a + 2, a + 2 + n) == rest.take(n as int));
    match parse_usize(&t[a + 2..a + 2 + n]) {
        Some(len) => Ok(HeaderLine::ContentLength(len)),
        None => Err(Error::Number),
    }
}

/// The header of a message, line by line.
#[derive(Clone, Copy, Debug, PartialEq, Eq, Structural)]
pub struct Header {
    /// The length that the lines read so far give to the body.
    pub content_len: usize,
}

impl Header {
    /// A header of which no line has been read.
    pub fn new() -> (h: Header)
        ensures
            h.content_len == 0,
    {
        Header { content_len: 0 }
    }

    /// The next line of the header. Returns the number of bytes of the body
    /// where the line ends the header, and nothing where more lines follow.
    /// A header that ends without a length for the body is refused.
    pub fn line(&mut self, line: &str) -> (r: Result<Option<usize>, Error>)
        ensures
            match spec_header_line(line@) {
                Err(e) => r == Err::<Option<usize>, Error>(e) && *final(self) == *old(self),
                Ok(HeaderLine::ContentLength(n)) => {
                    &&& r == Ok::<Option<usize>, Error>(None)
                    &&& final(self).content_len == n
                },
                Ok(HeaderLine::End) => {
                    &&& *final(self) == *old(self)
                    &&& if old(self).content_len == 0 {
                        r == Err::<Option<usize>, Error>(Error::MissingLength)
                    } else {
                        r == Ok::<Option<usize>, Error>(Some(old(self).content_len))
                    }
                },
            },
    {
        match parse_header(line) {
            Err(e) => Err(e),
            Ok(HeaderLine::ContentLength(n)) => {
                self.content_len = n;
                Ok(None)
            },
            Ok(HeaderLine::End) => {
                if self.content_len == 0 {
                    Err(Error::MissingLength)
                } else {
                    Ok(Some(self.content_len))
                }
            },
        }
    }
}

} // verus!
