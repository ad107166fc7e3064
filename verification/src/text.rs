//! Small verified helpers for text: characters of a string, decimal numbers,
//! whitespace, lines and searching.
use vstd::prelude::*;
use vstd::string::StringExecFns;

verus! {

/// The number of bytes that `s` takes in UTF-8.
pub open spec fn byte_len(s: Seq<char>) -> nat {
    vstd::utf8::encode_utf8(s).len()
}

/// The number of bytes of `s` as a length in memory.
pub open spec fn byte_size(s: Seq<char>) -> usize {
    byte_len(s) as usize
}

/// The characters of `s`, in order.
pub fn chars_of(s: &str) -> (v: Vec<char>)
    ensures
        v@ == s@,
{
    let mut v: Vec<char> = Vec::new();
    let it = s.chars();
    for c in iter: it
        invariant
            v@ == iter.seq().take(iter.index()),
    {
        v.push(c);
    }
    v
}

/// The string made of the characters of `v`.
pub fn string_of(v: &[char]) -> (s: String)
    ensures
        s@ == v@,
{
    let mut s = String::new();
    let mut i: usize = 0;
    while i < v.len()
        invariant
            i <= v.len(),
            s@ == v@.take(i as int),
        decreases v.len() - i,
    {
        s.push(v[i]);
        i += 1;
    }
    assert(v@.take(v.len() as int) == v@);
    s
}

/// Whether two strings hold the same characters.
pub fn str_eq(a: &str, b: &str) -> (r: bool)
    ensures
        r == (a@ == b@),
{
    let x = a.as_bytes();
    let y = b.as_bytes();
    proof {
        vstd::utf8::encode_utf8_decode_utf8(a@);
        vstd::utf8::encode_utf8_decode_utf8(b@);
    }
    if x.len() != y.len() {
        return false;
    }
    let mut i: usize = 0;
    while i < x.len()
        invariant
            i <= x@.len(),
            x@.len() == y@.len(),
            x@ == vstd::utf8::encode_utf8(a@),
            y@ == vstd::utf8::encode_utf8(b@),
            forall|j: int| 0 <= j < i ==> x@[j] == y@[j],
        decreases x@.len() - i,
    {
        if x[i] != y[i] {
            return false;
        }
        i += 1;
    }
    assert(x@ == y@);
    true
}

/// The character that writes the digit `d`.
pub open spec fn digit(d: nat) -> char
    recommends
        d < 10,
{
    (48 + d) as char
}

/// `n` written in base ten, without sign or leading zeros.
pub open spec fn decimal(n: nat) -> Seq<char>
    decreases n,
{
    if n < 10 {
        seq![digit(n)]
    } else {
        decimal(n / 10).push(digit(n % 10))
    }
}

/// Appends `n` in base ten to `s`.
pub fn push_decimal(s: &mut String, n: u64)
    ensures
        final(s)@ == old(s)@ + decimal(n as nat),
    decreases n,
{
    if n >= 10 {
        push_decimal(s, n / 10);
    }
    let d: u8 = (n % 10) as u8;
    let c: char = (48u8 + d) as char;
    assert(c == digit((n % 10) as nat));
    s.push(c);
    assert(final(s)@ == old(s)@ + decimal(n as nat));
}

/// `n` in base ten.
pub fn decimal_string(n: u64) -> (s: String)
    ensures
        s@ == decimal(n as nat),
{
    let mut s = String::new();
    push_decimal(&mut s, n);
    assert(Seq::<char>::empty() + decimal(n as nat) == decimal(n as nat));
    s
}

/// Whether `c` has the Unicode property White_Space.
pub open spec fn is_space(c: char) -> bool {
    let u = c as u32;
    (0x09 <= u <= 0x0d) || u == 0x20 || u == 0x85 || u == 0xa0 || u == 0x1680 || (0x2000 <= u
        <= 0x200a) || u == 0x2028 || u == 0x2029 || u == 0x202f || u == 0x205f || u == 0x3000
}

/// Whether `c` is white space.
pub fn is_whitespace(c: char) -> (r: bool)
    ensures
        r == is_space(c),
{
    let u: u32 = c as u32;
    (0x09 <= u && u <= 0x0d) || u == 0x20 || u == 0x85 || u == 0xa0 || u == 0x1680 || (0x2000
        <= u && u <= 0x200a) || u == 0x2028 || u == 0x2029 || u == 0x202f || u == 0x205f || u
        == 0x3000
}

/// The number of white-space characters at the start of `s`.
pub open spec fn leading_space(s: Seq<char>) -> nat
    decreases s.len(),
{
    if s.len() > 0 && is_space(s[0]) {
        1 + leading_space(s.drop_first())
    } else {
        0
    }
}

/// The number of white-space characters at the end of `s`.
pub open spec fn trailing_space(s: Seq<char>) -> nat
    decreases s.len(),
{
    if s.len() > 0 && is_space(s.last()) {
        1 + trailing_space(s.drop_last())
    } else {
        0
    }
}

/// `s` without the white space at its end.
pub open spec fn trim_end(s: Seq<char>) -> Seq<char> {
    s.take(s.len() - trailing_space(s))
}

/// `s` without the white space at its start and at its end.
pub open spec fn trim(s: Seq<char>) -> Seq<char> {
    let t = trim_end(s);
    t.skip(leading_space(t) as int)
}

pub proof fn lemma_leading_space_bound(s: Seq<char>)
    ensures
        leading_space(s) <= s.len(),
    decreases s.len(),
{
    if s.len() > 0 && is_space(s[0]) {
        lemma_leading_space_bound(s.drop_first());
    }
}

pub proof fn lemma_trailing_space_bound(s: Seq<char>)
    ensures
        trailing_space(s) <= s.len(),
    decreases s.len(),
{
    if s.len() > 0 && is_space(s.last()) {
        lemma_trailing_space_bound(s.drop_last());
    }
}

/// The index just behind the last character of `v` that is not white space.
pub fn trim_end_index(v: &Vec<char>) -> (e: usize)
    ensures
        e == v@.len() - trailing_space(v@),
{
    let mut e: usize = v.len();
    assert(v@.take(e as int) == v@);
    while e > 0 && is_whitespace(v[e - 1])
        invariant
            e <= v.len(),
            trailing_space(v@) == trailing_space(v@.take(e as int)) + (v.len() - e),
        decreases e,
    {
        assert(v@.take(e as int).drop_last() == v@.take(e - 1));
        e -= 1;
    }
    e
}

/// The index of the first character of `v[..e]` that is not white space.
pub fn trim_start_index(v: &Vec<char>, e: usize) -> (b: usize)
    requires
        e <= v.len(),
    ensures
        b == leading_space(v@.take(e as int)),
        b <= e,
{
    let mut b: usize = 0;
    assert(v@.take(e as int).skip(0) == v@.take(e as int));
    while b < e && is_whitespace(v[b])
        invariant
            b <= e <= v.len(),
            leading_space(v@.take(e as int)) == b + leading_space(
                v@.take(e as int).skip(b as int),
            ),
        decreases e - b,
    {
        assert(v@.take(e as int).skip(b as int).drop_first() == v@.take(e as int).skip(b + 1));
        b += 1;
    }
    b
}

/// `s` without the white space around it.
pub fn trimmed(s: &str) -> (t: String)
    ensures
        t@ == trim(s@),
{
    let v = chars_of(s);
    let e = trim_end_index(&v);
    let b = trim_start_index(&v, e);
    let t = string_of(&v[b..e]);
    assert(v@.subrange(b as int, e as int) == v@.take(e as int).skip(b as int));
    t
}

/// The index of the first newline of `s`, and the length of `s` where there
/// is none.
pub open spec fn first_newline(s: Seq<char>) -> int
    decreases s.len(),
{
    if s.len() == 0 || s[0] == '\n' {
        0
    } else {
        1 + first_newline(s.drop_first())
    }
}

/// `s` without the carriage return at its end, if there is one.
pub open spec fn strip_cr(s: Seq<char>) -> Seq<char> {
    if s.len() > 0 && s.last() == '\r' {
        s.drop_last()
    } else {
        s
    }
}

pub proof fn lemma_first_newline(s: Seq<char>)
    ensures
        0 <= first_newline(s) <= s.len(),
        first_newline(s) < s.len() ==> s[first_newline(s)] == '\n',
        forall|j: int| 0 <= j < first_newline(s) ==> s[j] != '\n',
    decreases s.len(),
{
    if !(s.len() == 0 || s[0] == '\n') {
        let t = s.drop_first();
        lemma_first_newline(t);
        assert forall|j: int| 0 <= j < first_newline(s) implies s[j] != '\n' by {
            if j > 0 {
                assert(s[j] == t[j - 1]);
            }
        }
    }
}

/// The lines of `s`: the text between newlines, each without the carriage
/// return before its newline. A newline at the very end starts no line.
pub open spec fn lines(s: Seq<char>) -> Seq<Seq<char>>
    decreases s.len(),
    via lines_decreases
{
    if s.len() == 0 {
        Seq::empty()
    } else {
        let n = first_newline(s);
        if n < s.len() {
            seq![strip_cr(s.take(n))] + lines(s.skip(n + 1))
        } else {
            seq![s]
        }
    }
}

#[via_fn]
proof fn lines_decreases(s: Seq<char>) {
    lemma_first_newline(s);
}

/// The first `k` of `parts`, with `sep` between them.
pub open spec fn join(parts: Seq<Seq<char>>, sep: Seq<char>, k: nat) -> Seq<char>
    decreases k,
{
    if k == 0 {
        Seq::empty()
    } else if k == 1 {
        parts[0]
    } else {
        join(parts, sep, (k - 1) as nat) + sep + parts[k - 1]
    }
}

/// The views of the strings in `v`.
pub open spec fn views(v: Seq<String>) -> Seq<Seq<char>> {
    v.map_values(|s: String| s@)
}

/// The lines of `s`.
pub fn split_lines(s: &str) -> (r: Vec<String>)
    ensures
        views(r@) == lines(s@),
{
    let v = chars_of(s);
    let mut r: Vec<String> = Vec::new();
    let mut start: usize = 0;
    assert(v@.skip(0) == v@);
    assert(views(r@) == Seq::<Seq<char>>::empty());
    while start < v.len()
        invariant
            start <= v.len(),
            v@ == s@,
            lines(s@) == views(r@) + lines(v@.skip(start as int)),
        decreases v.len() - start,
    {
        let ghost rest = v@.skip(start as int);
        let mut end: usize = start;
        assert(rest.skip(0) == rest);
        while end < v.len() && v[end] != '\n'
            invariant
                start <= end <= v.len(),
                rest == v@.skip(start as int),
                first_newline(rest) == (end - start) + first_newline(rest.skip(end - start)),
            decreases v.len() - end,
        {
            assert(rest.skip(end - start).drop_first() == rest.skip(end - start + 1));
            end += 1;
        }
        assert(first_newline(rest) == end - start);
        if end < v.len() {
            let stop: usize = if end > start && v[end - 1] == '\r' {
                end - 1
            } else {
                end
            };
            let line = string_of(&v[start..stop]);
            proof {
                assert(rest.take(end - start) == v@.subrange(start as int, end as int));
                assert(line@ == strip_cr(rest.take(end - start)));
                assert(rest.skip(end - start + 1) == v@.skip(end + 1));
                assert(views(r@.push(line)) == views(r@).push(line@));
            }
            r.push(line);
            start = end + 1;
        } else {
            let line = string_of(&v[start..end]);
            proof {
                assert(v@.subrange(start as int, end as int) == rest);
                assert(views(r@.push(line)) == views(r@).push(line@));
                assert(v@.skip(end as int).len() == 0);
            }
            r.push(line);
            start = end;
        }
    }
    r
}

/// The strings of `parts`, with `sep` between them.
pub fn join_strings(parts: &Vec<String>, sep: &str) -> (s: String)
    ensures
        s@ == join(views(parts@), sep@, parts@.len()),
{
    let mut s = String::new();
    let mut k: usize = 0;
    while k < parts.len()
        invariant
            k <= parts.len(),
            s@ == join(views(parts@), sep@, k as nat),
        decreases parts.len() - k,
    {
        if k > 0 {
            s.append(sep);
        }
        s.append(parts[k].as_str());
        assert(views(parts@)[k as int] == parts@[k as int]@);
        k += 1;
    }
    s
}

/// The index of the first `c` in `s`, and the length of `s` where there is
/// none.
pub open spec fn first_index_of(s: Seq<char>, c: char) -> int
    decreases s.len(),
{
    if s.len() == 0 || s[0] == c {
        0
    } else {
        1 + first_index_of(s.drop_first(), c)
    }
}

pub proof fn lemma_first_index_of(s: Seq<char>, c: char)
    ensures
        0 <= first_index_of(s, c) <= s.len(),
        first_index_of(s, c) < s.len() ==> s[first_index_of(s, c)] == c,
        forall|j: int| 0 <= j < first_index_of(s, c) ==> s[j] != c,
    decreases s.len(),
{
    if !(s.len() == 0 || s[0] == c) {
        let t = s.drop_first();
        lemma_first_index_of(t, c);
        assert forall|j: int| 0 <= j < first_index_of(s, c) implies s[j] != c by {
            if j > 0 {
                assert(s[j] == t[j - 1]);
            }
        }
    }
}

/// The index of the first `c` in `v`, and the length of `v` where there is
/// none.
pub fn index_of(v: &Vec<char>, c: char) -> (i: usize)
    ensures
        i == first_index_of(v@, c),
        i <= v@.len(),
{
    let mut i: usize = 0;
    assert(v@.skip(0) == v@);
    while i < v.len() && v[i] != c
        invariant
            i <= v.len(),
            first_index_of(v@, c) == i + first_index_of(v@.skip(i as int), c),
        decreases v.len() - i,
    {
        assert(v@.skip(i as int).drop_first() == v@.skip(i + 1));
        i += 1;
    }
    i
}

/// Whether `needle` occurs in `hay` at index `i`.
pub open spec fn occurs_at(hay: Seq<char>, needle: Seq<char>, i: int) -> bool {
    0 <= i && i + needle.len() <= hay.len() && hay.subrange(i, i + needle.len()) == needle
}

/// Whether `needle` occurs somewhere in `hay`.
pub open spec fn contains(hay: Seq<char>, needle: Seq<char>) -> bool {
    exists|i: int| occurs_at(hay, needle, i)
}

/// Whether `needle` occurs in `hay` at index `i`.
pub fn matches_at(hay: &Vec<char>, needle: &Vec<char>, i: usize) -> (r: bool)
    requires
        i + needle.len() <= hay.len(),
    ensures
        r == occurs_at(hay@, needle@, i as int),
{
    let mut j: usize = 0;
    while j < needle.len()
        invariant
            j <= needle.len(),
            i + needle.len() <= hay.len(),
            hay@.subrange(i as int, i + j) == needle@.take(j as int),
        decreases needle.len() - j,
    {
        if hay[i + j] != needle[j] {
            assert(hay@.subrange(i as int, i + needle.len())[j as int] != needle@[j as int]);
            return false;
        }
        assert(hay@.subrange(i as int, i + j + 1) == hay@.subrange(i as int, i + j).push(
            hay@[i + j],
        ));
        assert(needle@.take(j + 1) == needle@.take(j as int).push(needle@[j as int]));
        j += 1;
    }
    assert(needle@.take(needle.len() as int) == needle@);
    true
}

/// Whether `needle` occurs somewhere in `hay`.
pub fn str_contains(hay: &str, needle: &str) -> (r: bool)
    ensures
        r == contains(hay@, needle@),
{
    let h = chars_of(hay);
    let n = chars_of(needle);
    if n.len() > h.len() {
        return false;
    }
    let last: usize = h.len() - n.len();
    let mut i: usize = 0;
    loop
        invariant
            i <= last,
            last == h.len() - n.len(),
            h@ == hay@,
            n@ == needle@,
            forall|k: int| 0 <= k < i ==> !occurs_at(h@, n@, k),
        decreases last - i,
    {
        if matches_at(&h, &n, i) {
            return true;
        }
        if i == last {
            return false;
        }
        i += 1;
    }
}

/// Whether `c` is one of the digits `0` to `9`.
pub open spec fn is_digit_char(c: char) -> bool {
    '0' <= c <= '9'
}

/// The number that the first `n` characters of `s`, all digits, write in
/// base ten.
pub open spec fn chars_value(s: Seq<char>, n: nat) -> nat
    decreases n,
{
    if n == 0 {
        0
    } else {
        chars_value(s, (n - 1) as nat) * 10 + (s[n - 1] as u32 - 48) as nat
    }
}

/// Whether all characters of `s` are digits.
pub open spec fn all_digits(s: Seq<char>) -> bool {
    forall|i: int| 0 <= i < s.len() ==> is_digit_char(#[trigger] s[i])
}

/// `s` without the plus sign at its start, if there is one.
pub open spec fn unsigned_part(s: Seq<char>) -> Seq<char> {
    if s.len() > 0 && s[0] == '+' {
        s.skip(1)
    } else {
        s
    }
}

/// The number that `s` writes: digits in base ten, with or without a plus
/// sign before them. `None` where `s` is not of this form or the number is
/// larger than `usize::MAX`.
pub open spec fn spec_parse_usize(s: Seq<char>) -> Option<usize> {
    let d = unsigned_part(s);
    if d.len() > 0 && all_digits(d) && chars_value(d, d.len()) <= usize::MAX {
        Some(chars_value(d, d.len()) as usize)
    } else {
        None
    }
}

pub proof fn lemma_chars_value_grows(s: Seq<char>, k: nat, n: nat)
    requires
        k <= n <= s.len(),
        all_digits(s),
    ensures
        chars_value(s, k) <= chars_value(s, n),
    decreases n,
{
    if k < n {
        lemma_chars_value_grows(s, k, (n - 1) as nat);
    }
}

/// The number that `v` writes.
pub fn parse_usize(v: &[char]) -> (r: Option<usize>)
    ensures
        r == spec_parse_usize(v@),
{
    let start: usize = if v.len() > 0 && v[0] == '+' {
        1
    } else {
        0
    };
    let ghost d = v@.skip(start as int);
    assert(v@.skip(0) == v@);
    assert(d == unsigned_part(v@));
    if start >= v.len() {
        return None;
    }
    let mut n: usize = 0;
    let mut i: usize = start;
    while i < v.len()
        invariant
            start <= i <= v@.len(),
            start < v@.len(),
            d == v@.skip(start as int),
            d == unsigned_part(v@),
            forall|j: int| 0 <= j < i - start ==> is_digit_char(#[trigger] d[j]),
            n == chars_value(d, (i - start) as nat),
        decreases v@.len() - i,
    {
        let c = v[i];
        assert(d[i - start] == c);
        if c < '0' || c > '9' {
            assert(!is_digit_char(d[i - start]));
            return None;
        }
        let digit: usize = (c as u32 - 48) as usize;
        if n > (usize::MAX - digit) / 10 {
            proof {
                assert(chars_value(d, (i - start + 1) as nat) == n * 10 + digit);
                assert(n * 10 + digit > usize::MAX);
                if all_digits(d) {
                    lemma_chars_value_grows(d, (i - start + 1) as nat, d.len());
                }
            }
            return None;
        }
        n = n * 10 + digit;
        i += 1;
    }
    Some(n)
}

/// The number of characters at the start of `s` that are not white space.
pub open spec fn word_len(s: Seq<char>) -> nat
    decreases s.len(),
{
    if s.len() > 0 && !is_space(s[0]) {
        1 + word_len(s.drop_first())
    } else {
        0
    }
}

pub proof fn lemma_word_len_bound(s: Seq<char>)
    ensures
        word_len(s) <= s.len(),
    decreases s.len(),
{
    if s.len() > 0 && !is_space(s[0]) {
        lemma_word_len_bound(s.drop_first());
    }
}

/// The fields of `s`: the runs of characters between white space.
pub open spec fn fields(s: Seq<char>) -> Seq<Seq<char>>
    decreases s.len(),
    via fields_decreases
{
    let rest = s.skip(leading_space(s) as int);
    if rest.len() == 0 {
        Seq::empty()
    } else {
        seq![rest.take(word_len(rest) as int)] + fields(rest.skip(word_len(rest) as int))
    }
}

#[via_fn]
proof fn fields_decreases(s: Seq<char>) {
    lemma_leading_space_bound(s);
    let rest = s.skip(leading_space(s) as int);
    lemma_word_len_bound(rest);
    if rest.len() > 0 {
        lemma_leading_space_end(s);
    }
}

/// The character behind the white space at the start of `s` is not white
/// space.
pub proof fn lemma_leading_space_end(s: Seq<char>)
    ensures
        leading_space(s) < s.len() ==> !is_space(s[leading_space(s) as int]),
    decreases s.len(),
{
    if s.len() > 0 && is_space(s[0]) {
        lemma_leading_space_end(s.drop_first());
    }
}

/// The fields of `v`.
pub fn split_fields(v: &Vec<char>) -> (r: Vec<String>)
    ensures
        views(r@) == fields(v@),
{
    let mut r: Vec<String> = Vec::new();
    let mut pos: usize = 0;
    assert(v@.skip(0) == v@);
    assert(views(r@) == Seq::<Seq<char>>::empty());
    loop
        invariant
            pos <= v@.len(),
            fields(v@) == views(r@) + fields(v@.skip(pos as int)),
        decreases v@.len() - pos,
    {
        let ghost s = v@.skip(pos as int);
        let mut a: usize = pos;
        assert(s.skip(0) == s);
        while a < v.len() && is_whitespace(v[a])
            invariant
                pos <= a <= v@.len(),
                s == v@.skip(pos as int),
                leading_space(s) == (a - pos) + leading_space(s.skip(a - pos)),
            decreases v@.len() - a,
        {
            assert(s.skip(a - pos)[0] == v@[a as int]);
            assert(s.skip(a - pos).drop_first() == s.skip(a - pos + 1));
            a += 1;
        }
        proof {
            if a < v@.len() {
                assert(s.skip(a - pos)[0] == v@[a as int]);
            }
            assert(leading_space(s) == a - pos);
        }
        let ghost rest = s.skip(a - pos);
        assert(rest == v@.skip(a as int));
        if a >= v.len() {
            assert(fields(s) == Seq::<Seq<char>>::empty());
            return r;
        }
        let mut b: usize = a;
        assert(rest.skip(0) == rest);
        while b < v.len() && !is_whitespace(v[b])
            invariant
                a <= b <= v@.len(),
                rest == v@.skip(a as int),
                word_len(rest) == (b - a) + word_len(rest.skip(b - a)),
            decreases v@.len() - b,
        {
            assert(rest.skip(b - a)[0] == v@[b as int]);
            assert(rest.skip(b - a).drop_first() == rest.skip(b - a + 1));
            b += 1;
        }
        proof {
            if b < v@.len() {
                assert(rest.skip(b - a)[0] == v@[b as int]);
            }
            assert(word_len(rest) == b - a);
            assert(rest.take(b - a) == v@.subrange(a as int, b as int));
            assert(rest.skip(b - a) == v@.skip(b as int));
            assert(b > a) by {
                assert(rest[0] == v@[a as int]);
            }
        }
        let w = string_of(&v[a..b]);
        let ghost before = r@;
        r.push(w);
        proof {
            assert(views(r@) == views(before).push(w@));
            assert(fields(s) == seq![rest.take(b - a)] + fields(rest.skip(b - a)));
        }
        pos = b;
    }
}

} // verus!
