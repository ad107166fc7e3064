//! The order of positions, ranges and locations.
use vstd::prelude::*;
use std::cmp::Ordering;
use vstd::utf8::encode_utf8;

use crate::model::{Location, Position, Range};
use crate::sort::{
    Ranked, lemma_lex_asymmetric, lemma_lex_transitive, lemma_text_total, lex_lt, str_before,
    text_lt,
};
use crate::text::str_eq;

verus! {

/// Positions are ordered by line, then by character.
pub open spec fn position_order(a: Position, b: Position) -> Ordering {
    if a.line < b.line {
        Ordering::Less
    } else if a.line > b.line {
        Ordering::Greater
    } else if a.character < b.character {
        Ordering::Less
    } else if a.character > b.character {
        Ordering::Greater
    } else {
        Ordering::Equal
    }
}

/// Ranges are ordered by their start, then by their end.
pub open spec fn range_order(a: Range, b: Range) -> Ordering {
    if a.start != b.start {
        position_order(a.start, b.start)
    } else {
        position_order(a.end, b.end)
    }
}

/// Locations are ordered by their address as text, then by their range.
pub open spec fn location_order(a: Location, b: Location) -> Ordering {
    if a.uri@ != b.uri@ {
        if text_lt(a.uri@, b.uri@) {
            Ordering::Less
        } else {
            Ordering::Greater
        }
    } else {
        range_order(a.range, b.range)
    }
}

pub fn cmp_position(a: &Position, b: &Position) -> (o: Ordering)
    ensures
        o == position_order(*a, *b),
{
    if a.line != b.line {
        return a.line.cmp(&b.line);
    }
    a.character.cmp(&b.character)
}

pub fn cmp_range(a: &Range, b: &Range) -> (o: Ordering)
    ensures
        o == range_order(*a, *b),
{
    if a.start.line != b.start.line || a.start.character != b.start.character {
        return cmp_position(&a.start, &b.start);
    }
    cmp_position(&a.end, &b.end)
}

pub fn cmp_location(a: &Location, b: &Location) -> (o: Ordering)
    ensures
        o == location_order(*a, *b),
{
    if !str_eq(a.uri.as_str(), b.uri.as_str()) {
        if str_before(a.uri.as_str(), b.uri.as_str()) {
            return Ordering::Less;
        }
        return Ordering::Greater;
    }
    cmp_range(&a.range, &b.range)
}

impl Ranked for Location {
    open spec fn before(&self, other: &Self) -> bool {
        location_order(*self, *other) == Ordering::Less
    }

    proof fn lemma_order(a: &Self, b: &Self, c: &Self) {
        let x = encode_utf8(a.uri@);
        let y = encode_utf8(b.uri@);
        let z = encode_utf8(c.uri@);
        lemma_lex_asymmetric(x, x);
        lemma_lex_asymmetric(x, y);
        lemma_lex_asymmetric(y, z);
        lemma_lex_asymmetric(x, z);
        lemma_text_total(a.uri@, b.uri@);
        lemma_text_total(b.uri@, c.uri@);
        lemma_text_total(a.uri@, c.uri@);
        if lex_lt(x, y) && lex_lt(y, z) {
            lemma_lex_transitive(x, y, z);
        }
        if lex_lt(z, y) && lex_lt(y, x) {
            lemma_lex_transitive(z, y, x);
        }
    }

    fn precedes(&self, other: &Self) -> (r: bool) {
        match cmp_location(self, other) {
            Ordering::Less => true,
            _ => false,
        }
    }
}

} // verus!
