//! Rows, wrapped lines and the index of the visible slice.
//!
//! Lengths are counted in bytes of UTF-8, as `str::len` counts them, and a
//! text is cut at byte offsets. A cut is possible only between two
//! characters, so the functions that cut name the offsets at which they do.

use vstd::prelude::*;
use crate::text::{
    between_chars, byte_len, byte_length, byte_range, byte_slice, lemma_ascii_text, lines_of,
    push_repeated, repeated,
};
use crate::window::constants::{
    BL_CORNER, BR_CORNER, HORI_EDGE, H_PADDING, TL_CORNER, TR_CORNER, VERT_EDGE,
};

verus! {

/// The size of a window, in columns and rows.
#[derive(Debug, Clone, Copy, PartialEq, Eq, Structural)]
pub struct Dimensions {
    pub width: usize,
    pub height: usize,
}

/// What the input panel asks of the chat window.
#[derive(Debug, Clone, Copy, PartialEq, Eq, Structural)]
pub enum WindowActions {
    ScrollUp,
    ScrollDown,
    CursorLeft,
    CursorRight,
    Resize(usize, usize),
}

/// The index of the slice of lines that a window shows.
#[derive(Debug, Clone, Copy, PartialEq, Eq, Structural)]
pub struct SliceIndex {
    pub from: usize,
    pub to: usize,
}

/// A row between two edges: the left character, `count` times the fill
/// character, the right character.
pub open spec fn ruled(left: char, fill: char, right: char, count: nat) -> Seq<char> {
    seq![left] + repeated(fill, count) + seq![right]
}

/// A row of text in the frame: the edge, two blanks, the text, `padding`
/// blanks, the edge.
pub open spec fn framed(text: Seq<char>, padding: nat) -> Seq<char> {
    seq![VERT_EDGE] + repeated(' ', H_PADDING as nat) + text + repeated(' ', padding) + seq![
        VERT_EDGE,
    ]
}

/// The blanks behind a feed line in a window `width` columns wide: what is
/// left of the `width - 6` text columns, or all of them where the line is
/// longer than that.
pub open spec fn feed_padding(line: Seq<char>, width: nat) -> nat {
    if byte_len(line) > width - 6 {
        (width - 6) as nat
    } else {
        (width - 6 - byte_len(line)) as nat
    }
}

/// The rows of the feed lines `lines`.
pub open spec fn feed_rows(lines: Seq<Seq<char>>, width: nat) -> Seq<Seq<char>> {
    Seq::new(lines.len(), |i: int| framed(lines[i], feed_padding(lines[i], width)))
}

/// The lines of `text` that a slice `from..to` shows: those of them that the
/// text has.
pub open spec fn visible(text: Seq<Seq<char>>, from: int, to: int) -> Seq<Seq<char>> {
    text.subrange(
        from,
        if to < text.len() {
            to
        } else {
            text.len() as int
        },
    )
}

/// The slice `from..to` of a text of `len` lines can be shown in a window
/// `width` columns wide: it starts no later than it ends and no later than
/// the text ends, and a window that has a line to show has its six columns
/// of frame.
pub open spec fn slice_fits(len: nat, from: int, to: int, width: nat) -> bool {
    &&& from <= to
    &&& from <= len
    &&& from < to && from < len ==> width >= 6
}

/// The number of pieces of `size` bytes that `total` bytes are cut into.
pub open spec fn piece_count(total: nat, size: nat) -> nat {
    if size == 0 || total == 0 {
        0
    } else {
        ((total - 1) / (size as int) + 1) as nat
    }
}

/// Piece `k` of a text cut every `size` bytes.
pub open spec fn piece(text: Seq<char>, size: nat, k: int) -> Seq<char> {
    byte_range(
        text,
        k * size,
        if k * size + size < byte_len(text) {
            k * size + size
        } else {
            byte_len(text) as int
        },
    )
}

/// A long line as the lines that fit: the text cut every `size` bytes, each
/// piece but the first behind `prefix`.
pub open spec fn wrapped(text: Seq<char>, prefix: Seq<char>, size: nat) -> Seq<Seq<char>> {
    Seq::new(
        piece_count(byte_len(text), size),
        |k: int|
            if k == 0 {
                piece(text, size, k)
            } else {
                prefix + piece(text, size, k)
            },
    )
}

/// Every offset at which a text is cut into pieces of `size` bytes falls
/// between two characters.
pub open spec fn cuts_between_chars(text: Seq<char>, size: nat) -> bool {
    forall|at: int|
        0 <= at < byte_len(text) && size > 0 && at % (size as int) == 0 ==> #[trigger] between_chars(
            text,
            at,
        )
}

/// A text can be cut to the `width - 6` text columns of an input row: where
/// it is longer than that, the offset that leaves its last `width - 6`
/// bytes falls between two characters.
pub open spec fn overflow_cut_ok(text: Seq<char>, width: nat) -> bool {
    byte_len(text) > width - 6 ==> between_chars(text, byte_len(text) - (width - 6))
}

/// What an input row shows of a text: all of it where it fits the
/// `width - 6` text columns, else its last `width - 6` bytes.
pub open spec fn shown_text(text: Seq<char>, width: nat) -> Seq<char> {
    if byte_len(text) > width - 6 {
        byte_range(text, byte_len(text) - (width - 6), byte_len(text) as int)
    } else {
        text
    }
}

/// The input row of a text: what is shown of it, and blanks up to the
/// `width - 6` text columns.
pub open spec fn input_row(text: Seq<char>, width: nat) -> Seq<char> {
    framed(shown_text(text, width), (width - 6 - byte_len(shown_text(text, width))) as nat)
}

/// A text of ASCII characters can be cut into pieces of any size, and shown
/// in an input row of any width that has the six columns of the frame.
pub proof fn lemma_ascii_cuts(text: Seq<char>, size: nat, width: nat)
    requires
        vstd::utf8::is_ascii_chars(text),
    ensures
        cuts_between_chars(text, size),
        width >= 6 ==> overflow_cut_ok(text, width),
{
    lemma_ascii_text(text, 0, 0);
    assert forall|at: int| 0 <= at < byte_len(text) implies between_chars(text, at) by {
        lemma_ascii_text(text, at, at);
    }
    if byte_len(text) > width - 6 && width >= 6 {
        lemma_ascii_text(text, byte_len(text) - (width - 6), byte_len(text) as int);
    }
}

/// The string of a vector of characters.
pub fn vec_char_to_string(vec_char: Vec<char>) -> (string: String)
    ensures
        string@ == vec_char@,
{
    let mut string = String::new();
    let mut k: usize = 0;
    while k < vec_char.len()
        invariant
            k <= vec_char.len(),
            string@ == vec_char@.take(k as int),
        decreases vec_char.len() - k,
    {
        string.push(vec_char[k]);
        assert(string@ =~= vec_char@.take(k + 1));
        k += 1;
    }
    assert(vec_char@.take(k as int) =~= vec_char@);
    string
}

fn ruled_row(left: char, fill: char, right: char, count: usize) -> (row: String)
    ensures
        row@ == ruled(left, fill, right, count as nat),
{
    let mut row = String::new();
    row.push(left);
    push_repeated(&mut row, fill, count);
    row.push(right);
    assert(row@ =~= ruled(left, fill, right, count as nat));
    row
}

/// A row of text in the frame, with `padding` blanks behind the text.
pub fn framed_row(text: &str, padding: usize) -> (row: String)
    ensures
        row@ == framed(text@, padding as nat),
{
    let mut row = String::new();
    row.push(VERT_EDGE);
    push_repeated(&mut row, ' ', H_PADDING as usize);
    row.append(text);
    push_repeated(&mut row, ' ', padding);
    row.push(VERT_EDGE);
    assert(row@ =~= framed(text@, padding as nat));
    row
}

/// The row of a text at a given place of the frame, which fills the width:
/// the text and blanks up to `width - 6` text columns.
pub fn println_starting_at(string: &str, dimensions: Dimensions) -> (row: String)
    requires
        byte_len(string@) + 6 <= dimensions.width,
    ensures
        row@ == framed(string@, (dimensions.width - 6 - byte_len(string@)) as nat),
{
    framed_row(string, dimensions.width - 6 - byte_length(string))
}

/// The row of one feed line.
pub fn feed_row(string: &str, dimensions: Dimensions) -> (row: String)
    requires
        dimensions.width >= 6,
    ensures
        row@ == framed(string@, feed_padding(string@, dimensions.width as nat)),
{
    let length: usize = byte_length(string);
    let max_length: usize = if length > dimensions.width - 6 {
        dimensions.width - 6
    } else {
        dimensions.width - 6 - length
    };
    framed_row(string, max_length)
}

/// The rows of several feed lines, top to bottom.
pub fn printlns(strings: &Vec<String>, dimensions: Dimensions) -> (rows: Vec<String>)
    requires
        strings@.len() > 0 ==> dimensions.width >= 6,
    ensures
        lines_of(rows@) == feed_rows(lines_of(strings@), dimensions.width as nat),
{
    let mut rows: Vec<String> = Vec::new();
    let mut k: usize = 0;
    while k < strings.len()
        invariant
            k <= strings@.len(),
            strings@.len() > 0 ==> dimensions.width >= 6,
            lines_of(rows@) == feed_rows(lines_of(strings@), dimensions.width as nat).take(
                k as int,
            ),
        decreases strings.len() - k,
    {
        let ghost before = lines_of(rows@);
        let row = feed_row(strings[k].as_str(), dimensions);
        rows.push(row);
        assert(lines_of(rows@) =~= before.push(row@));
        assert(feed_rows(lines_of(strings@), dimensions.width as nat)[k as int] == row@);
        assert(lines_of(rows@) =~= feed_rows(lines_of(strings@), dimensions.width as nat).take(
            k + 1,
        ));
        k += 1;
    }
    assert(feed_rows(lines_of(strings@), dimensions.width as nat).take(k as int) =~= feed_rows(
        lines_of(strings@),
        dimensions.width as nat,
    ));
    rows
}

/// The top row of the frame.
pub fn top_line(dimensions: Dimensions) -> (row: String)
    requires
        dimensions.width >= 4,
    ensures
        row@ == ruled(TL_CORNER, HORI_EDGE, TR_CORNER, (dimensions.width - 4) as nat),
{
    ruled_row(TL_CORNER, HORI_EDGE, TR_CORNER, dimensions.width - 4)
}

/// The bottom row of the frame.
pub fn bottom_line(dimensions: Dimensions) -> (row: String)
    requires
        dimensions.width >= 4,
    ensures
        row@ == ruled(BL_CORNER, HORI_EDGE, BR_CORNER, (dimensions.width - 4) as nat),
{
    ruled_row(BL_CORNER, HORI_EDGE, BR_CORNER, dimensions.width - 4)
}

/// A row of the frame without text.
pub fn empty_line(dimensions: Dimensions) -> (row: String)
    requires
        dimensions.width >= 4,
    ensures
        row@ == ruled(VERT_EDGE, ' ', VERT_EDGE, (dimensions.width - 4) as nat),
{
    ruled_row(VERT_EDGE, ' ', VERT_EDGE, dimensions.width - 4)
}

/// Cuts a long line into the lines that fit a window: pieces of
/// `width - 6 - prefix.len()` bytes, each but the first behind `prefix`.
/// An empty text gives no line, and so does a window with no room for text.
pub fn split_long_line(text: &String, prefix: &str, dimensions: Dimensions) -> (lines: Vec<String>)
    requires
        dimensions.width >= 6 + byte_len(prefix@),
        cuts_between_chars(text@, (dimensions.width - 6 - byte_len(prefix@)) as nat),
    ensures
        lines_of(lines@) == wrapped(
            text@,
            prefix@,
            (dimensions.width - 6 - byte_len(prefix@)) as nat,
        ),
{
    let size: usize = dimensions.width - 6 - byte_length(prefix);
    let total: usize = byte_length(text.as_str());
    let mut lines: Vec<String> = Vec::new();
    if size == 0 {
        assert(lines_of(lines@) =~= wrapped(text@, prefix@, 0));
        return lines;
    }
    let mut start: usize = 0;
    let ghost mut k: int = 0;
    proof {
        vstd::utf8::encode_utf8_valid_utf8(text@);
        vstd::utf8::is_char_boundary_start_end_of_seq(vstd::utf8::encode_utf8(text@));
    }
    while start < total
        invariant
            size > 0,
            total == byte_len(text@),
            cuts_between_chars(text@, size as nat),
            between_chars(text@, total as int),
            0 <= k,
            start <= total,
            start <= k * size,
            start < total ==> start == k * size,
            k > 0 ==> (k - 1) * size < total,
            lines@.len() == k,
            forall|i: int|
                0 <= i < k ==> (#[trigger] lines@[i])@ == if i == 0 {
                    piece(text@, size as nat, i)
                } else {
                    prefix@ + piece(text@, size as nat, i)
                },
        decreases total - start,
    {
        let end: usize = if size < total - start {
            start + size
        } else {
            total
        };
        proof {
            vstd::arithmetic::div_mod::lemma_mod_multiples_basic(k, size as int);
            vstd::arithmetic::div_mod::lemma_mod_multiples_basic(k + 1, size as int);
            assert((k + 1) * size == k * size + size) by (nonlinear_arith);
        }
        let chunk = byte_slice(text.as_str(), start, end);
        let line = if start == 0 {
            assert(k == 0) by (nonlinear_arith)
                requires
                    k * size == 0,
                    size > 0,
                    0 <= k,
            ;
            chunk.to_owned()
        } else {
            let mut line = String::from_str(prefix);
            line.append(chunk);
            line
        };
        lines.push(line);
        start = end;
        proof {
            k = k + 1;
        }
    }
    proof {
        let count = piece_count(total as nat, size as nat);
        if total == 0 {
            assert(k == 0) by (nonlinear_arith)
                requires
                    k > 0 ==> (k - 1) * size < 0,
                    size > 0,
                    0 <= k,
            ;
        } else {
            assert(k >= 1);
            assert(total - 1 == (k - 1) * size + (total - 1 - (k - 1) * size));
            assert(k * size == (k - 1) * size + size) by (nonlinear_arith);
            vstd::arithmetic::div_mod::lemma_fundamental_div_mod_converse(
                total - 1,
                size as int,
                k - 1,
                total - 1 - (k - 1) * size,
            );
        }
        assert(count == k);
        assert(lines_of(lines@) =~= wrapped(text@, prefix@, size as nat));
    }
    lines
}

/// The text that an input row shows: the whole text where it fits the
/// `width - 6` text columns, else its last `width - 6` bytes.
pub fn adjust_text_for_overflow(copy: String, dimensions: Dimensions) -> (shown: String)
    requires
        dimensions.width >= 6,
        overflow_cut_ok(copy@, dimensions.width as nat),
    ensures
        shown@ == shown_text(copy@, dimensions.width as nat),
        byte_len(shown@) <= dimensions.width - 6,
{
    let max_input_length: usize = dimensions.width - 6;
    let length: usize = byte_length(copy.as_str());
    if length > max_input_length {
        proof {
            vstd::utf8::encode_utf8_valid_utf8(copy@);
            vstd::utf8::is_char_boundary_start_end_of_seq(vstd::utf8::encode_utf8(copy@));
        }
        byte_slice(copy.as_str(), length - max_input_length, length).to_owned()
    } else {
        copy
    }
}

/// The rows of the lines `start..end` of a text, as far as the text has
/// them.
pub fn print_slice(text: &Vec<String>, start: usize, end: usize, dimensions: Dimensions) -> (rows:
    Vec<String>)
    requires
        slice_fits(text@.len(), start as int, end as int, dimensions.width as nat),
    ensures
        lines_of(rows@) == feed_rows(
            visible(lines_of(text@), start as int, end as int),
            dimensions.width as nat,
        ),
{
    let mut actual_end: usize = text.len();
    if end < actual_end {
        actual_end = end;
    }
    let ghost shown = visible(lines_of(text@), start as int, end as int);
    let mut rows: Vec<String> = Vec::new();
    let mut k: usize = start;
    while k < actual_end
        invariant
            start <= k <= actual_end <= text@.len(),
            start < actual_end ==> dimensions.width >= 6,
            shown == lines_of(text@).subrange(start as int, actual_end as int),
            lines_of(rows@) == feed_rows(shown, dimensions.width as nat).take(k - start),
        decreases actual_end - k,
    {
        let ghost before = lines_of(rows@);
        let row = feed_row(text[k].as_str(), dimensions);
        rows.push(row);
        assert(lines_of(rows@) =~= before.push(row@));
        assert(shown[k - start] == text@[k as int]@);
        assert(lines_of(rows@) =~= feed_rows(shown, dimensions.width as nat).take(k + 1 - start));
        k += 1;
    }
    assert(feed_rows(shown, dimensions.width as nat).take(k - start) =~= feed_rows(
        shown,
        dimensions.width as nat,
    ));
    rows
}

impl SliceIndex {
    pub fn new(from: usize, to: usize) -> (index: SliceIndex)
        ensures
            index.from == from,
            index.to == to,
    {
        SliceIndex { from, to }
    }

    /// Moves the slice and returns the rows that it now shows.
    pub fn change(
        &mut self,
        text: &Vec<String>,
        from: usize,
        to: usize,
        dimensions: Dimensions,
    ) -> (rows: Vec<String>)
        requires
            slice_fits(text@.len(), from as int, to as int, dimensions.width as nat),
        ensures
            final(self).from == from,
            final(self).to == to,
            lines_of(rows@) == feed_rows(
                visible(lines_of(text@), from as int, to as int),
                dimensions.width as nat,
            ),
    {
        self.from = from;
        self.to = to;
        print_slice(text, from, to, dimensions)
    }
}

} // verus!
