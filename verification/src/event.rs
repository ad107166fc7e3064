//! Reading the events of a window from the bytes of its event file.
use vstd::prelude::*;
use vstd::string::StringExecFns;

use crate::Error;
use crate::acme::Event;
use crate::text::{decimal, push_decimal};

verus! {

/// The most characters of text that an event may carry.
pub const EVENT_SIZE: usize = 256;

/// An [`Event`] with its texts as sequences of characters.
pub struct EventView {
    pub c1: char,
    pub c2: char,
    pub q0: u32,
    pub q1: u32,
    pub orig_q0: u32,
    pub orig_q1: u32,
    pub flag: u32,
    pub nr: u32,
    pub text: Seq<char>,
    pub arg: Seq<char>,
    pub loc: Seq<char>,
}

impl View for Event {
    type V = EventView;

    open spec fn view(&self) -> EventView {
        EventView {
            c1: self.c1,
            c2: self.c2,
            q0: self.q0,
            q1: self.q1,
            orig_q0: self.orig_q0,
            orig_q1: self.orig_q1,
            flag: self.flag,
            nr: self.nr,
            text: self.text@,
            arg: self.arg@,
            loc: self.loc@,
        }
    }
}

/// Whether `b` is a digit.
pub open spec fn is_digit(b: u8) -> bool {
    48 <= b <= 57
}

/// The number of digits at the start of `s`.
pub open spec fn digits_len(s: Seq<u8>) -> nat
    decreases s.len(),
{
    if s.len() > 0 && is_digit(s[0]) {
        1 + digits_len(s.drop_first())
    } else {
        0
    }
}

/// The number that the first `n` bytes of `s` write in base ten.
pub open spec fn digits_value(s: Seq<u8>, n: nat) -> nat
    decreases n,
{
    if n == 0 {
        0
    } else {
        digits_value(s, (n - 1) as nat) * 10 + (s[n - 1] - 48) as nat
    }
}

pub proof fn lemma_digits_len(s: Seq<u8>)
    ensures
        digits_len(s) <= s.len(),
        forall|j: int| 0 <= j < digits_len(s) ==> is_digit(#[trigger] s[j]),
        digits_len(s) < s.len() ==> !is_digit(s[digits_len(s) as int]),
    decreases s.len(),
{
    if s.len() > 0 && is_digit(s[0]) {
        let t = s.drop_first();
        lemma_digits_len(t);
        assert forall|j: int| 0 <= j < digits_len(s) implies is_digit(#[trigger] s[j]) by {
            if j > 0 {
                assert(s[j] == t[j - 1]);
            }
        }
    }
}

/// More digits do not make the number smaller.
pub proof fn lemma_digits_value_grows(s: Seq<u8>, k: nat, n: nat)
    requires
        k <= n <= s.len(),
        forall|j: int| 0 <= j < n ==> is_digit(#[trigger] s[j]),
    ensures
        digits_value(s, k) <= digits_value(s, n),
    decreases n,
{
    if k < n {
        lemma_digits_value_grows(s, k, (n - 1) as nat);
    }
}

/// A number of an event at the start of `s`: digits up to a space. Gives the
/// number and how many bytes it takes with its space.
pub open spec fn spec_number(s: Seq<u8>) -> Result<(u32, int), Error> {
    let n = digits_len(s);
    if digits_value(s, n) > u32::MAX {
        Err(Error::EventNumber)
    } else if n >= s.len() {
        Err(Error::Truncated)
    } else if s[n as int] != 32 {
        Err(Error::EventNumber)
    } else {
        Ok((digits_value(s, n) as u32, n as int + 1))
    }
}

/// The characters that the bytes `s` stand for, one character for each byte.
pub open spec fn byte_chars(s: Seq<u8>) -> Seq<char> {
    s.map_values(|b: u8| b as char)
}

/// One event as it stands at the start of `s`: two characters, four
/// numbers, the text, and a newline. Gives the event and how many bytes it
/// takes.
pub open spec fn spec_raw_event(s: Seq<u8>) -> Result<(EventView, int), Error> {
    if s.len() < 2 {
        Err(Error::Truncated)
    } else {
        match spec_number(s.skip(2)) {
            Err(e) => Err(e),
            Ok((q0, n0)) => match spec_number(s.skip(2 + n0)) {
                Err(e) => Err(e),
                Ok((q1, n1)) => match spec_number(s.skip(2 + n0 + n1)) {
                    Err(e) => Err(e),
                    Ok((flag, n2)) => match spec_number(s.skip(2 + n0 + n1 + n2)) {
                        Err(e) => Err(e),
                        Ok((nr, n3)) => {
                            let at = 2 + n0 + n1 + n2 + n3;
                            if nr > EVENT_SIZE {
                                Err(Error::EventTooLarge)
                            } else if s.len() < at + nr + 1 {
                                Err(Error::Truncated)
                            } else if s[at + nr] != 10 {
                                Err(Error::Phase)
                            } else {
                                Ok(
                                    (
                                        EventView {
                                            c1: s[0] as char,
                                            c2: s[1] as char,
                                            q0,
                                            q1,
                                            orig_q0: q0,
                                            orig_q1: q1,
                                            flag,
                                            nr,
                                            text: byte_chars(s.subrange(at as int, at + nr)),
                                            arg: Seq::empty(),
                                            loc: Seq::empty(),
                                        },
                                        at + nr + 1,
                                    ),
                                )
                            }
                        },
                    },
                },
            },
        }
    }
}

/// The event `e1`, read from the first `n1` bytes of `s`, with its expansion
/// taken in. Where the event says that an expansion follows, the next event
/// is read too, and takes the place of the first if the first names an empty
/// range: it keeps the first event's flag, with the first event's range as
/// the original range.
pub open spec fn spec_expand(s: Seq<u8>, e1: EventView, n1: int) -> Result<(EventView, int), Error> {
    if e1.flag & 2 != 0 {
        match spec_raw_event(s.skip(n1)) {
            Err(e) => Err(e),
            Ok((e2, n2)) => if e1.q0 == e1.q1 {
                Ok((EventView { orig_q0: e1.q0, orig_q1: e1.q1, flag: e1.flag, ..e2 }, n1 + n2))
            } else {
                Ok((e1, n1 + n2))
            },
        }
    } else {
        Ok((e1, n1))
    }
}

/// The event `e`, read from the first `n` bytes of `s`, with its chorded
/// argument taken in. Where the event says that one follows, two more
/// events are read: the text of the one is the argument, the text of the
/// other its origin.
pub open spec fn spec_chord(s: Seq<u8>, e: EventView, n: int) -> Result<(EventView, int), Error> {
    if e.flag & 8 != 0 {
        match spec_raw_event(s.skip(n)) {
            Err(err) => Err(err),
            Ok((e3, n3)) => match spec_raw_event(s.skip(n + n3)) {
                Err(err) => Err(err),
                Ok((e4, n4)) => Ok((EventView { arg: e3.text, loc: e4.text, ..e }, n + n3 + n4)),
            },
        }
    } else {
        Ok((e, n))
    }
}

/// The event at the start of `s` with what follows it taken in: first its
/// expansion, then its chorded argument.
pub open spec fn spec_read_event(s: Seq<u8>) -> Result<(EventView, int), Error> {
    match spec_raw_event(s) {
        Err(e) => Err(e),
        Ok((e1, n1)) => match spec_expand(s, e1, n1) {
            Err(e) => Err(e),
            Ok((e, n)) => spec_chord(s, e, n),
        },
    }
}

/// Reads a number of an event from `bytes` at `pos`. Gives the number and
/// the position behind its space.
pub fn get_en(bytes: &[u8], pos: usize) -> (r: Result<(u32, usize), Error>)
    requires
        pos <= bytes@.len(),
    ensures
        match (r, spec_number(bytes@.skip(pos as int))) {
            (Ok(a), Ok(b)) => a.0 == b.0 && a.1 == pos + b.1 && a.1 <= bytes@.len(),
            (Err(a), Err(b)) => a == b,
            _ => false,
        },
{
    let ghost s = bytes@.skip(pos as int);
    let mut i: usize = pos;
    let mut n: u64 = 0;
    proof {
        assert(s.skip(0) == s);
        lemma_digits_len(s);
    }
    while i < bytes.len() && 48 <= bytes[i] && bytes[i] <= 57
        invariant
            pos <= i <= bytes@.len(),
            s == bytes@.skip(pos as int),
            digits_len(s) == (i - pos) + digits_len(s.skip(i - pos)),
            n == digits_value(s, (i - pos) as nat),
            n <= u32::MAX,
        decreases bytes@.len() - i,
    {
        let d: u64 = (bytes[i] - 48) as u64;
        proof {
            assert(s.skip(i - pos).drop_first() == s.skip(i - pos + 1));
            assert(s[i - pos] == bytes@[i as int]);
            assert(s.skip(i - pos)[0] == bytes@[i as int]);
            assert(digits_len(s.skip(i - pos)) == 1 + digits_len(s.skip(i - pos + 1)));
        }
        n = n * 10 + d;
        i += 1;
        if n > u32::MAX as u64 {
            proof {
                lemma_digits_len(s);
                lemma_digits_value_grows(s, (i - pos) as nat, digits_len(s));
            }
            return Err(Error::EventNumber);
        }
    }
    proof {
        if i < bytes@.len() {
            assert(s.skip(i - pos)[0] == bytes@[i as int]);
        }
        assert(digits_len(s) == i - pos);
    }
    if i >= bytes.len() {
        return Err(Error::Truncated);
    }
    if bytes[i] != 32 {
        proof {
            assert(s[i - pos] == bytes@[i as int]);
        }
        return Err(Error::EventNumber);
    }
    proof {
        assert(s[i - pos] == bytes@[i as int]);
    }
    Ok((n as u32, i + 1))
}

/// The string whose characters stand for the bytes `bytes[from..to]`.
fn latin_string(bytes: &[u8], from: usize, to: usize) -> (s: String)
    requires
        from <= to <= bytes@.len(),
    ensures
        s@ == byte_chars(bytes@.subrange(from as int, to as int)),
{
    let mut s = String::new();
    let mut i: usize = from;
    while i < to
        invariant
            from <= i <= to <= bytes@.len(),
            s@ == byte_chars(bytes@.subrange(from as int, i as int)),
        decreases to - i,
    {
        s.push(bytes[i] as char);
        assert(bytes@.subrange(from as int, i + 1) == bytes@.subrange(from as int, i as int).push(
            bytes@[i as int],
        ));
        i += 1;
    }
    s
}

/// Reads one event from the start of `bytes`. Gives the event and the
/// number of bytes it takes.
pub fn get_event(bytes: &[u8]) -> (r: Result<(Event, usize), Error>)
    ensures
        match (r, spec_raw_event(bytes@)) {
            (Ok(a), Ok(b)) => a.0@ == b.0 && a.1 == b.1 && a.1 <= bytes@.len(),
            (Err(a), Err(b)) => a == b,
            _ => false,
        },
{
    if bytes.len() < 2 {
        return Err(Error::Truncated);
    }
    let c1 = bytes[0] as char;
    let c2 = bytes[1] as char;
    let (q0, p0) = match get_en(bytes, 2) {
        Ok(v) => v,
        Err(e) => {
            return Err(e);
        },
    };
    let (q1, p1) = match get_en(bytes, p0) {
        Ok(v) => v,
        Err(e) => {
            return Err(e);
        },
    };
    let (flag, p2) = match get_en(bytes, p1) {
        Ok(v) => v,
        Err(e) => {
            return Err(e);
        },
    };
    let (nr, p3) = match get_en(bytes, p2) {
        Ok(v) => v,
        Err(e) => {
            return Err(e);
        },
    };
    if nr as usize > EVENT_SIZE {
        return Err(Error::EventTooLarge);
    }
    if bytes.len() - p3 < nr as usize + 1 {
        return Err(Error::Truncated);
    }
    let end: usize = p3 + nr as usize;
    if bytes[end] != 10 {
        return Err(Error::Phase);
    }
    let text = latin_string(bytes, p3, end);
    Ok(
        (
            Event {
                c1,
                c2,
                q0,
                q1,
                orig_q0: q0,
                orig_q1: q1,
                flag,
                nr,
                text,
                arg: String::new(),
                loc: String::new(),
            },
            end + 1,
        ),
    )
}

/// Reads one event from `bytes` at `pos`. Gives the event and the position
/// behind it.
fn get_event_at(bytes: &[u8], pos: usize) -> (r: Result<(Event, usize), Error>)
    requires
        pos <= bytes@.len(),
    ensures
        match (r, spec_raw_event(bytes@.skip(pos as int))) {
            (Ok(a), Ok(b)) => a.0@ == b.0 && a.1 == pos + b.1 && a.1 <= bytes@.len(),
            (Err(a), Err(b)) => a == b,
            _ => false,
        },
{
    let rest = &bytes[pos..bytes.len()];
    assert(rest@ == bytes@.skip(pos as int));
    match get_event(rest) {
        Ok((e, n)) => Ok((e, pos + n)),
        Err(e) => Err(e),
    }
}

/// Takes in the expansion of the event `e`, which ends at `n`.
fn expand(bytes: &[u8], e: Event, n: usize) -> (r: Result<(Event, usize), Error>)
    requires
        n <= bytes@.len(),
    ensures
        match (r, spec_expand(bytes@, e@, n as int)) {
            (Ok(a), Ok(b)) => a.0@ == b.0 && a.1 == b.1 && a.1 <= bytes@.len(),
            (Err(a), Err(b)) => a == b,
            _ => false,
        },
{
    if e.flag & 2 != 0 {
        let (mut e2, n2) = match get_event_at(bytes, n) {
            Ok(v) => v,
            Err(err) => {
                return Err(err);
            },
        };
        if e.q0 == e.q1 {
            e2.orig_q0 = e.q0;
            e2.orig_q1 = e.q1;
            e2.flag = e.flag;
            Ok((e2, n2))
        } else {
            Ok((e, n2))
        }
    } else {
        Ok((e, n))
    }
}

/// Takes in the chorded argument of the event `e`, which ends at `n`.
fn chord(bytes: &[u8], e: Event, n: usize) -> (r: Result<(Event, usize), Error>)
    requires
        n <= bytes@.len(),
    ensures
        match (r, spec_chord(bytes@, e@, n as int)) {
            (Ok(a), Ok(b)) => a.0@ == b.0 && a.1 == b.1 && a.1 <= bytes@.len(),
            (Err(a), Err(b)) => a == b,
            _ => false,
        },
{
    if e.flag & 8 != 0 {
        let (e3, n3) = match get_event_at(bytes, n) {
            Ok(v) => v,
            Err(err) => {
                return Err(err);
            },
        };
        let (e4, n4) = match get_event_at(bytes, n3) {
            Ok(v) => v,
            Err(err) => {
                return Err(err);
            },
        };
        let mut e = e;
        e.arg = e3.text;
        e.loc = e4.text;
        Ok((e, n4))
    } else {
        Ok((e, n))
    }
}

/// Reads the event at the start of `bytes` with what follows it taken in:
/// the expansion and the chorded argument, where the event says that they
/// follow. Gives the event and the number of bytes read.
pub fn read_event(bytes: &[u8]) -> (r: Result<(Event, usize), Error>)
    ensures
        match (r, spec_read_event(bytes@)) {
            (Ok(a), Ok(b)) => a.0@ == b.0 && a.1 == b.1 && a.1 <= bytes@.len(),
            (Err(a), Err(b)) => a == b,
            _ => false,
        },
{
    let (e1, n1) = match get_event(bytes) {
        Ok(v) => v,
        Err(err) => {
            return Err(err);
        },
    };
    let (e, n) = match expand(bytes, e1, n1) {
        Ok(v) => v,
        Err(err) => {
            return Err(err);
        },
    };
    chord(bytes, e, n)
}

/// The text that gives an event back to the editor: its two characters and
/// its range.
pub open spec fn spec_event_text(c1: char, c2: char, q0: u32, q1: u32) -> Seq<char> {
    seq![c1, c2] + decimal(q0 as nat) + " "@ + decimal(q1 as nat) + " \n"@
}

/// The text to write to the event file to give `ev` back to the editor.
pub fn event_text(ev: &Event) -> (s: String)
    ensures
        s@ == spec_event_text(ev.c1, ev.c2, ev.q0, ev.q1),
{
    let mut s = String::new();
    s.push(ev.c1);
    s.push(ev.c2);
    push_decimal(&mut s, ev.q0 as u64);
    s.append(" ");
    push_decimal(&mut s, ev.q1 as u64);
    s.append(" \n");
    assert(Seq::<char>::empty().push(ev.c1).push(ev.c2) == seq![ev.c1, ev.c2]);
    s
}

/// The events of a window: the bytes of its event file that have been read
/// and not yet taken as events.
#[derive(Debug)]
pub struct WinEvents {
    pub pending: Vec<u8>,
}

impl WinEvents {
    /// Nothing has been read.
    pub fn new() -> (w: WinEvents)
        ensures
            w.pending@.len() == 0,
    {
        WinEvents { pending: Vec::new() }
    }

    /// More bytes have been read from the event file.
    pub fn feed(&mut self, bytes: &[u8])
        ensures
            final(self).pending@ == old(self).pending@ + bytes@,
    {
        let mut i: usize = 0;
        while i < bytes.len()
            invariant
                i <= bytes@.len(),
                self.pending@ == old(self).pending@ + bytes@.take(i as int),
            decreases bytes@.len() - i,
        {
            self.pending.push(bytes[i]);
            i += 1;
        }
        assert(bytes@.take(bytes@.len() as int) == bytes@);
    }

    /// Takes the next event from the bytes that have been read. The bytes of
    /// the event are used up; on an error all bytes stay.
    pub fn read_event(&mut self) -> (r: Result<Event, Error>)
        ensures
            match (r, spec_read_event(old(self).pending@)) {
                (Ok(e), Ok(b)) => e@ == b.0 && final(self).pending@ == old(self).pending@.skip(b.1),
                (Err(a), Err(b)) => a == b && final(self).pending@ == old(self).pending@,
                _ => false,
            },
    {
        match read_event(self.pending.as_slice()) {
            Ok((e, n)) => {
                let rest = self.pending.split_off(n);
                self.pending = rest;
                Ok(e)
            },
            Err(e) => Err(e),
        }
    }

    /// The text to write to the event file to give `ev` back to the editor.
    pub fn write_event(&self, ev: Event) -> (s: String)
        ensures
            s@ == spec_event_text(ev.c1, ev.c2, ev.q0, ev.q1),
    {
        event_text(&ev)
    }
}

} // verus!
