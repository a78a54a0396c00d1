//! Texts as sequences of characters: markers and where they first stand,
//! lengths and parts counted in bytes of UTF-8.

use vstd::prelude::*;
use vstd::utf8::{decode_utf8, encode_utf8, is_ascii_chars, is_char_boundary};

verus! {

/// `String::push` of std appends one character to the end of the string.
/// Trusted: the characters are then the old ones and `ch` behind them.
pub assume_specification[ String::push ](text: &mut String, ch: char)
    ensures
        final(text)@ == old(text)@.push(ch),
;

/// The characters of each string of a sequence.
pub open spec fn lines_of(strings: Seq<String>) -> Seq<Seq<char>> {
    Seq::new(strings.len(), |i: int| strings[i]@)
}

/// `count` times the character `c`.
pub open spec fn repeated(c: char, count: nat) -> Seq<char> {
    Seq::new(count, |i: int| c)
}

/// The length of a text in bytes of UTF-8.
pub open spec fn byte_len(text: Seq<char>) -> nat {
    encode_utf8(text).len()
}

/// The characters that the bytes `from..to` of the UTF-8 form of `text`
/// encode.
pub open spec fn byte_range(text: Seq<char>, from: int, to: int) -> Seq<char> {
    decode_utf8(encode_utf8(text).subrange(from, to))
}

/// The byte offset `at` of the UTF-8 form of `text` falls between two
/// characters, or at either end.
pub open spec fn between_chars(text: Seq<char>, at: int) -> bool {
    is_char_boundary(encode_utf8(text), at)
}

/// No character of `line` is a line feed.
pub open spec fn no_line_feed(line: Seq<char>) -> bool {
    forall|k: int| 0 <= k < line.len() ==> line[k] != '\n'
}

/// `marker` stands in `line` at index `k`.
pub open spec fn marker_at(line: Seq<char>, marker: Seq<char>, k: int) -> bool {
    &&& 0 <= k
    &&& k + marker.len() <= line.len()
    &&& line.subrange(k, k + marker.len()) == marker
}

/// `k` is the first index at or after `from` at which `marker` stands in `line`.
pub open spec fn first_marker_at(line: Seq<char>, marker: Seq<char>, from: int, k: int) -> bool {
    &&& from <= k
    &&& marker_at(line, marker, k)
    &&& forall|m: int| from <= m < k ==> !marker_at(line, marker, m)
}

/// `marker` stands nowhere in `line` at or after `from`.
pub open spec fn no_marker_from(line: Seq<char>, marker: Seq<char>, from: int) -> bool {
    forall|m: int| from <= m ==> !marker_at(line, marker, m)
}

/// The first index at or after `from` at which `marker` stands in `line`;
/// meaningful where `has_marker_from` holds.
pub open spec fn first_marker(line: Seq<char>, marker: Seq<char>, from: int) -> int {
    choose|k: int| first_marker_at(line, marker, from, k)
}

/// `marker` stands somewhere in `line` at or after `from`.
pub open spec fn has_marker_from(line: Seq<char>, marker: Seq<char>, from: int) -> bool {
    exists|k: int| first_marker_at(line, marker, from, k)
}

/// A first occurrence is the only first occurrence.
pub proof fn lemma_first_marker_is(line: Seq<char>, marker: Seq<char>, from: int, k: int)
    requires
        first_marker_at(line, marker, from, k),
    ensures
        has_marker_from(line, marker, from),
        first_marker(line, marker, from) == k,
{
    let c = first_marker(line, marker, from);
    assert(first_marker_at(line, marker, from, c));
    if c < k {
        assert(!marker_at(line, marker, c));
    }
    if k < c {
        assert(!marker_at(line, marker, k));
    }
}

/// Where a marker stands at or after `from`, there is a first such place, and
/// it is no later.
pub proof fn lemma_marker_has_first(line: Seq<char>, marker: Seq<char>, from: int, k: int)
    requires
        from <= k,
        marker_at(line, marker, k),
    ensures
        has_marker_from(line, marker, from),
        from <= first_marker(line, marker, from) <= k,
        first_marker_at(line, marker, from, first_marker(line, marker, from)),
    decreases k - from,
{
    if exists|m: int| from <= m < k && marker_at(line, marker, m) {
        let m = choose|m: int| from <= m < k && marker_at(line, marker, m);
        lemma_marker_has_first(line, marker, from, m);
    } else {
        assert(first_marker_at(line, marker, from, k));
        lemma_first_marker_is(line, marker, from, k);
    }
}

/// A boundary of a text is a boundary of its part behind an earlier
/// boundary.
pub proof fn lemma_boundary_in_tail(bytes: Seq<u8>, from: int, to: int)
    requires
        vstd::utf8::valid_utf8(bytes),
        0 <= from <= to <= bytes.len(),
        is_char_boundary(bytes, from),
        is_char_boundary(bytes, to),
    ensures
        vstd::utf8::valid_utf8(bytes.subrange(from, bytes.len() as int)),
        is_char_boundary(bytes.subrange(from, bytes.len() as int), to - from),
{
    let tail = bytes.subrange(from, bytes.len() as int);
    vstd::utf8::valid_utf8_split(bytes, from);
    vstd::utf8::is_char_boundary_start_end_of_seq(tail);
    if to < bytes.len() {
        vstd::utf8::is_char_boundary_iff_not_is_continuation_byte(bytes, to);
        vstd::utf8::is_char_boundary_iff_not_is_continuation_byte(tail, to - from);
        assert(tail[to - from] == bytes[to]);
    }
}

/// A text of ASCII characters has one byte for each character: its length
/// in bytes is its length, every offset falls between two characters, and a
/// range of its bytes is the same range of its characters.
pub proof fn lemma_ascii_text(text: Seq<char>, from: int, to: int)
    requires
        is_ascii_chars(text),
        0 <= from <= to <= text.len(),
    ensures
        byte_len(text) == text.len(),
        between_chars(text, from),
        between_chars(text, to),
        byte_range(text, from, to) == text.subrange(from, to),
{
    let bytes = encode_utf8(text);
    vstd::utf8::is_ascii_chars_encode_utf8(text);
    vstd::utf8::encode_utf8_valid_utf8(text);
    vstd::utf8::is_char_boundary_start_end_of_seq(bytes);
    assert forall|at: int| 0 <= at < text.len() implies is_char_boundary(bytes, at) by {
        let byte = bytes[at];
        assert(byte == text[at] as u8);
        assert(byte <= 0x7f);
        vstd::utf8::is_char_boundary_iff_not_is_continuation_byte(bytes, at);
    }
    let part = text.subrange(from, to);
    assert(is_ascii_chars(part));
    vstd::utf8::is_ascii_chars_encode_utf8(part);
    assert(encode_utf8(part) =~= bytes.subrange(from, to)) by {
        assert forall|i: int| 0 <= i < part.len() implies encode_utf8(part)[i] == bytes.subrange(
            from,
            to,
        )[i] by {
            assert(part[i] == text[from + i]);
        }
    }
    vstd::utf8::encode_utf8_decode_utf8(part);
}

/// The characters of a string slice, in order.
pub fn chars_of(s: &str) -> (chars: Vec<char>)
    ensures
        chars@ == s@,
{
    let mut chars: Vec<char> = Vec::new();
    let it = s.chars();
    for c in iter: it
        invariant
            chars@ == iter.seq().take(iter.index() as int),
            iter.seq() == s@,
    {
        chars.push(c);
    }
    chars
}

/// Whether some character of `chars` is a line feed.
pub fn has_line_feed(chars: &Vec<char>) -> (found: bool)
    ensures
        found == !no_line_feed(chars@),
{
    let mut k: usize = 0;
    while k < chars.len()
        invariant
            k <= chars.len(),
            forall|m: int| 0 <= m < k ==> chars@[m] != '\n',
        decreases chars.len() - k,
    {
        if chars[k] == '\n' {
            return true;
        }
        k += 1;
    }
    false
}

/// Whether `marker` stands in `chars` at index `k`.
pub fn stands_at(chars: &Vec<char>, marker: &Vec<char>, k: usize) -> (found: bool)
    ensures
        found == marker_at(chars@, marker@, k as int),
{
    if marker.len() > chars.len() || k > chars.len() - marker.len() {
        return false;
    }
    let mut m: usize = 0;
    while m < marker.len()
        invariant
            m <= marker.len(),
            k + marker.len() <= chars.len(),
            forall|t: int| 0 <= t < m ==> chars@[k + t] == marker@[t],
        decreases marker.len() - m,
    {
        if chars[k + m] != marker[m] {
            assert(chars@.subrange(k as int, k + marker.len())[m as int] != marker@[m as int]);
            return false;
        }
        m += 1;
    }
    assert(chars@.subrange(k as int, k + marker.len()) =~= marker@);
    true
}

/// The first index at or after `from` at which `marker` stands in `chars`.
pub fn find_marker(chars: &Vec<char>, marker: &Vec<char>, from: usize) -> (found: Option<usize>)
    ensures
        match found {
            Some(k) => first_marker_at(chars@, marker@, from as int, k as int),
            None => no_marker_from(chars@, marker@, from as int),
        },
{
    let mut k: usize = from;
    while k < chars.len()
        invariant
            from <= k,
            forall|m: int| from <= m < k ==> !marker_at(chars@, marker@, m),
        decreases chars.len() - k,
    {
        if stands_at(chars, marker, k) {
            return Some(k);
        }
        k += 1;
    }
    if stands_at(chars, marker, k) {
        return Some(k);
    }
    assert forall|m: int| from <= m implies !marker_at(chars@, marker@, m) by {
        if m > k {
            assert(m + marker@.len() > chars@.len());
        }
    }
    None
}

/// The length of a text in bytes of UTF-8, as `str::len` counts it.
pub fn byte_length(text: &str) -> (length: usize)
    ensures
        length == byte_len(text@),
{
    text.as_bytes().len()
}

/// Appends `count` times the character `c`.
pub fn push_repeated(text: &mut String, c: char, count: usize)
    ensures
        final(text)@ == old(text)@ + repeated(c, count as nat),
{
    let mut k: usize = 0;
    assert(text@ =~= old(text)@ + repeated(c, 0));
    while k < count
        invariant
            k <= count,
            text@ == old(text)@ + repeated(c, k as nat),
        decreases count - k,
    {
        text.push(c);
        assert(text@ =~= old(text)@ + repeated(c, (k + 1) as nat));
        k += 1;
    }
}

/// The part of `text` between two byte offsets, each of which falls between
/// two characters or at an end of the text.
pub fn byte_slice<'a>(text: &'a str, from: usize, to: usize) -> (part: &'a str)
    requires
        from <= to <= byte_len(text@),
        between_chars(text@, from as int),
        between_chars(text@, to as int),
    ensures
        part@ == byte_range(text@, from as int, to as int),
        encode_utf8(part@) == encode_utf8(text@).subrange(from as int, to as int),
{
    let ghost bytes = encode_utf8(text@);
    proof {
        vstd::utf8::encode_utf8_valid_utf8(text@);
        lemma_boundary_in_tail(bytes, from as int, to as int);
    }
    let (_, tail) = text.split_at(from);
    let (part, _) = tail.split_at(to - from);
    proof {
        assert(encode_utf8(part@) =~= bytes.subrange(from as int, to as int));
        vstd::utf8::encode_utf8_decode_utf8(part@);
    }
    part
}

} // verus!
