//! A bridge between the windows of an editor that serves its files over 9P
//! and language servers: the protocol of 9P, the editor's files and events,
//! and the coordinator that decides what to send to which server and what to
//! show. The library does no reading or writing itself.
use vstd::prelude::*;
use vstd::string::StringExecFns;

pub mod acme;
pub mod codec;
pub mod conn;
pub mod dial;
pub mod event;
pub mod fid;
pub mod fsys;
pub mod hover;
pub mod lsp;
pub mod model;
pub mod nl;
pub mod order;
pub mod outside;
pub mod plumb;
pub mod server;
pub mod sort;
pub mod table;
pub mod text;

verus! {

/// What can go wrong.
#[derive(Debug, PartialEq, Eq)]
pub enum Error {
    /// Bytes that should be text are not UTF-8.
    Utf8,
    /// A number is missing, has a character that is no digit, or is too large.
    Number,
    /// A read gave fewer fields than are needed.
    ShortRead,
    /// A record of the log has fewer than three fields.
    MalformedLog,
    /// A number in an event does not end in a space.
    EventNumber,
    /// An event says that it carries more text than an event may carry.
    EventTooLarge,
    /// No newline where an event ends.
    Phase,
    /// The bytes end before the event does.
    Truncated,
    /// Every tag has been used.
    OutOfTags,
    /// Every fid has been used.
    OutOfFids,
    /// The server asks for a message size that cannot be used.
    InvalidMsize(u32),
    /// The server speaks another version of the protocol.
    InvalidVersion(String),
    /// A reply of a type that was not asked for.
    UnknownType { got: u8, want: u8 },
    /// The server answered with an error.
    Remote(String),
    /// A reply that cannot be read.
    Decode,
    /// A message that cannot be written: a text or a list in it is too long.
    Encode,
    /// A message that is larger than the message size agreed on.
    TooLarge,
    /// A reply for a tag that no request waits on.
    UnexpectedTag(u16),
    /// A read or a write that is said to have moved more bytes than were
    /// asked for.
    TooMany,
    /// A walk that did not reach its end.
    Walk,
    /// A seek from the end of a file.
    Unsupported,
    /// A file name that gives no address.
    BadUrl,
    /// A response to a request that is not open.
    NoSuchRequest,
    /// A report on the progress of work that has not begun.
    NoSuchProgress,
    /// No window shows the file.
    NoSuchFile,
    /// No window has the id.
    NoSuchWindow,
    /// The text has no such line.
    NoSuchLine,
    /// Signature help without the signature it points to.
    ExpectedSignature,
    /// A header line without a colon and a space.
    BadHeader,
    /// A header that is not known.
    UnknownHeader,
    /// A message without a header that gives its length.
    MissingLength,
}

impl Error {
    /// What the error says.
    pub open spec fn spec_message(self) -> Seq<char> {
        match self {
            Error::Utf8 => "invalid utf-8"@,
            Error::Number => "invalid number"@,
            Error::ShortRead => "short read"@,
            Error::MalformedLog => "malformed log event"@,
            Error::EventNumber => "event number syntax"@,
            Error::EventTooLarge => "event size too long"@,
            Error::Phase => "phase error"@,
            Error::Truncated => "short event"@,
            Error::OutOfTags => "out of tags"@,
            Error::OutOfFids => "out of fids"@,
            Error::InvalidMsize(m) => "invalid msize "@ + crate::text::decimal(m as nat),
            Error::InvalidVersion(v) => "invalid version "@ + v@,
            Error::UnknownType { got, want } => "unknown type: "@ + crate::text::decimal(
                got as nat,
            ) + ", expected: "@ + crate::text::decimal(want as nat),
            Error::Remote(e) => e@,
            Error::Decode => "malformed message"@,
            Error::Encode => "message cannot be written"@,
            Error::TooLarge => "message too large"@,
            Error::UnexpectedTag(t) => "unexpected tag "@ + crate::text::decimal(t as nat),
            Error::TooMany => "more bytes than asked for"@,
            Error::Walk => "walk failed"@,
            Error::Unsupported => "unsupported"@,
            Error::BadUrl => "invalid url"@,
            Error::NoSuchRequest => "expected client id"@,
            Error::NoSuchProgress => "unknown progress"@,
            Error::NoSuchFile => "could not find file"@,
            Error::NoSuchWindow => "could not find window"@,
            Error::NoSuchLine => "no such line"@,
            Error::ExpectedSignature => "expected signature"@,
            Error::BadHeader => "bad line"@,
            Error::UnknownHeader => "unrecognized header"@,
            Error::MissingLength => "expected content-length"@,
        }
    }

    /// What the error says.
    pub fn message(&self) -> (s: String)
        ensures
            s@ == self.spec_message(),
    {
        match self {
            Error::Utf8 => String::from_str("invalid utf-8"),
            Error::Number => String::from_str("invalid number"),
            Error::ShortRead => String::from_str("short read"),
            Error::MalformedLog => String::from_str("malformed log event"),
            Error::EventNumber => String::from_str("event number syntax"),
            Error::EventTooLarge => String::from_str("event size too long"),
            Error::Phase => String::from_str("phase error"),
            Error::Truncated => String::from_str("short event"),
            Error::OutOfTags => String::from_str("out of tags"),
            Error::OutOfFids => String::from_str("out of fids"),
            Error::InvalidMsize(m) => {
                let mut s = String::from_str("invalid msize ");
                crate::text::push_decimal(&mut s, *m as u64);
                s
            },
            Error::InvalidVersion(v) => {
                let mut s = String::from_str("invalid version ");
                s.append(v.as_str());
                s
            },
            Error::UnknownType { got, want } => {
                let mut s = String::from_str("unknown type: ");
                crate::text::push_decimal(&mut s, *got as u64);
                s.append(", expected: ");
                crate::text::push_decimal(&mut s, *want as u64);
                s
            },
            Error::Remote(e) => e.clone(),
            Error::Decode => String::from_str("malformed message"),
            Error::Encode => String::from_str("message cannot be written"),
            Error::TooLarge => String::from_str("message too large"),
            Error::UnexpectedTag(t) => {
                let mut s = String::from_str("unexpected tag ");
                crate::text::push_decimal(&mut s, *t as u64);
                s
            },
            Error::TooMany => String::from_str("more bytes than asked for"),
            Error::Walk => String::from_str("walk failed"),
            Error::Unsupported => String::from_str("unsupported"),
            Error::BadUrl => String::from_str("invalid url"),
            Error::NoSuchRequest => String::from_str("expected client id"),
            Error::NoSuchProgress => String::from_str("unknown progress"),
            Error::NoSuchFile => String::from_str("could not find file"),
            Error::NoSuchWindow => String::from_str("could not find window"),
            Error::NoSuchLine => String::from_str("no such line"),
            Error::ExpectedSignature => String::from_str("expected signature"),
            Error::BadHeader => String::from_str("bad line"),
            Error::UnknownHeader => String::from_str("unrecognized header"),
            Error::MissingLength => String::from_str("expected content-length"),
        }
    }

    /// The error as an [`ErrorStr`] with its message.
    pub fn to_err_str(&self) -> (e: Box<ErrorStr>)
        ensures
            e@ == self.spec_message(),
    {
        err_str(self.message())
    }
}

/// An error that carries nothing but its message.
#[derive(Debug)]
pub struct ErrorStr {
    error: String,
}

impl View for ErrorStr {
    type V = Seq<char>;

    closed spec fn view(&self) -> Seq<char> {
        self.error@
    }
}

impl ErrorStr {
    /// The message this error was made with.
    pub fn description(&self) -> (s: &str)
        ensures
            s@ == self@,
    {
        self.error.as_str()
    }

    /// The message as a string of its own.
    pub fn message(&self) -> (s: String)
        ensures
            s@ == self@,
    {
        self.error.clone()
    }
}

/// Boxes `error` as an [`ErrorStr`].
pub fn err_str(error: String) -> (e: Box<ErrorStr>)
    ensures
        e@ == error@,
{
    Box::new(ErrorStr { error })
}

} // verus!
