//! Messages for the plumber.
use vstd::prelude::*;
use vstd::string::StringExecFns;
use vstd::utf8::encode_utf8;

use crate::text::{chars_of, first_index_of, index_of, string_of};

verus! {

/// A message for the plumber: where it goes, what kind of data it carries,
/// and the data.
#[derive(Debug, PartialEq, Eq)]
pub struct Message {
    pub dst: String,
    pub typ: String,
    pub data: Vec<u8>,
}

/// The byte that writes the digit `d`.
pub open spec fn digit_byte(d: nat) -> u8
    recommends
        d < 10,
{
    (48 + d) as u8
}

/// `n` written in base ten, in bytes.
pub open spec fn decimal_bytes(n: nat) -> Seq<u8>
    decreases n,
{
    if n < 10 {
        seq![digit_byte(n)]
    } else {
        decimal_bytes(n / 10).push(digit_byte(n % 10))
    }
}

/// Appends `n` in base ten to `buf`.
pub fn push_decimal_bytes(buf: &mut Vec<u8>, n: u64)
    ensures
        final(buf)@ == old(buf)@ + decimal_bytes(n as nat),
    decreases n,
{
    if n >= 10 {
        push_decimal_bytes(buf, n / 10);
    }
    let d: u8 = (n % 10) as u8;
    buf.push(48u8 + d);
    assert(final(buf)@ == old(buf)@ + decimal_bytes(n as nat));
}

/// The record that carries a message: six lines with source, destination,
/// directory, type, attributes and the number of bytes of data, then the
/// data. Source, directory and attributes are empty.
pub open spec fn spec_record(dst: Seq<char>, typ: Seq<char>, data: Seq<u8>) -> Seq<u8> {
    seq![10u8] + encode_utf8(dst) + seq![10u8, 10u8] + encode_utf8(typ) + seq![10u8, 10u8]
        + decimal_bytes(data.len()) + seq![10u8] + data
}

impl Message {
    /// The bytes to write to the plumber's `send` file for this message.
    pub fn send(&self) -> (s: Vec<u8>)
        ensures
            s@ == spec_record(self.dst@, self.typ@, self.data@),
    {
        let mut s: Vec<u8> = Vec::new();
        s.push(10u8);
        let dst = self.dst.as_str().as_bytes_vec();
        let mut dst = dst;
        s.append(&mut dst);
        s.push(10u8);
        s.push(10u8);
        let mut typ = self.typ.as_str().as_bytes_vec();
        s.append(&mut typ);
        s.push(10u8);
        s.push(10u8);
        push_decimal_bytes(&mut s, self.data.len() as u64);
        s.push(10u8);
        let mut k: usize = 0;
        let ghost head = s@;
        while k < self.data.len()
            invariant
                k <= self.data.len(),
                s@ == head + self.data@.take(k as int),
            decreases self.data.len() - k,
        {
            s.push(self.data[k]);
            k += 1;
        }
        assert(self.data@.take(self.data@.len() as int) == self.data@);
        s
    }
}

/// The text of `loc` before its first colon: the path of a location.
pub open spec fn location_path(loc: Seq<char>) -> Seq<char> {
    loc.take(first_index_of(loc, ':'))
}

/// A location to show: the path that has to exist for it to be shown, and
/// the message that asks the editor to show it.
#[derive(Debug, PartialEq, Eq)]
pub struct PlumbRequest {
    pub path: String,
    pub message: Message,
}

/// The request to show the location `loc`: an edit message with `loc` as
/// its text.
pub fn plumb_location(loc: &str) -> (r: PlumbRequest)
    ensures
        r.path@ == location_path(loc@),
        r.message.dst@ == "edit"@,
        r.message.typ@ == "text"@,
        r.message.data@ == encode_utf8(loc@),
{
    let v = chars_of(loc);
    let i = index_of(&v, ':');
    let path = string_of(&v[0..i]);
    assert(v@.subrange(0, i as int) == v@.take(i as int));
    PlumbRequest {
        path,
        message: Message {
            dst: String::from_str("edit"),
            typ: String::from_str("text"),
            data: loc.as_bytes_vec(),
        },
    }
}

} // verus!
