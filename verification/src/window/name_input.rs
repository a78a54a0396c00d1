//! The panel that asks a user for a name.
//!
//! The panel is a box of nine rows, 25 columns between its edges. The answer
//! stands in a field of ten columns, the columns it does not fill shown as
//! underscores. How many columns a text fills is what the `unicode-width`
//! crate says of it.

use vstd::prelude::*;
use unicode_width::UnicodeWidthStr;
use crate::text::{
    between_chars, byte_len, byte_length, byte_slice, lemma_ascii_text, lines_of, push_repeated,
    repeated,
};
use crate::window::constants::{
    BL_CORNER, BR_CORNER, DOBLE_HORI_EDGE, DOBLE_VERT_EDGE, TL_CORNER, TR_CORNER,
};
use crate::window::handlers::{without_last_byte, Key};
use crate::window::helpers::ruled;

verus! {

/// The number of columns that a text fills on a terminal, as the
/// `unicode-width` crate counts them.
pub uninterp spec fn display_width(text: Seq<char>) -> nat;

/// Calls `UnicodeWidthStr::width` of the `unicode-width` crate. Trusted: the
/// result is the one number that the crate assigns to this text, which
/// `display_width` names. It depends on the text alone.
#[verifier::external_body]
fn text_width(text: &str) -> (width: usize)
    ensures
        width == display_width(text@),
{
    UnicodeWidthStr::width(text)
}

/// The panel that asks for a name: the answer typed so far.
#[derive(Debug, Clone, PartialEq, Eq)]
pub struct BasicInputPanel {
    pub input_text: String,
}

/// What the panel does for a key.
#[derive(Debug, Clone, PartialEq, Eq)]
pub enum PanelStep {
    /// Show the panel again.
    Redraw,
    /// The answer is given: this is the name.
    Done(String),
    /// Nothing changed.
    Ignore,
}

/// The question that the panel asks.
pub open spec fn question() -> Seq<char> {
    "What is your name?"@
}

/// A row of the panel without text.
pub open spec fn blank_row() -> Seq<char> {
    ruled(DOBLE_VERT_EDGE, ' ', DOBLE_VERT_EDGE, 25)
}

/// The row of the question, which stands in the middle.
pub open spec fn question_row() -> Seq<char> {
    seq![DOBLE_VERT_EDGE] + repeated(' ', 3) + question() + repeated(' ', 4) + seq![
        DOBLE_VERT_EDGE,
    ]
}

/// The row of an answer that fills `answer_width` of its ten columns.
pub open spec fn answer_row(answer: Seq<char>, answer_width: nat) -> Seq<char> {
    seq![DOBLE_VERT_EDGE] + repeated(' ', 7) + answer + repeated('_', (10 - answer_width) as nat)
        + repeated(' ', 8) + seq![DOBLE_VERT_EDGE]
}

/// The nine rows of the panel, top to bottom.
pub open spec fn panel_rows(answer: Seq<char>, answer_width: nat) -> Seq<Seq<char>> {
    seq![
        ruled(TL_CORNER, DOBLE_HORI_EDGE, TR_CORNER, 25),
        blank_row(),
        blank_row(),
        question_row(),
        blank_row(),
        answer_row(answer, answer_width),
        blank_row(),
        blank_row(),
        ruled(BL_CORNER, DOBLE_HORI_EDGE, BR_CORNER, 25),
    ]
}

fn edge_row(left: char, right: char) -> (row: String)
    ensures
        row@ == ruled(left, DOBLE_HORI_EDGE, right, 25),
{
    let mut row = String::new();
    row.push(left);
    push_repeated(&mut row, DOBLE_HORI_EDGE, 25);
    row.push(right);
    assert(row@ =~= ruled(left, DOBLE_HORI_EDGE, right, 25));
    row
}

fn blank() -> (row: String)
    ensures
        row@ == blank_row(),
{
    let mut row = String::new();
    row.push(DOBLE_VERT_EDGE);
    push_repeated(&mut row, ' ', 25);
    row.push(DOBLE_VERT_EDGE);
    assert(row@ =~= blank_row());
    row
}

impl BasicInputPanel {
    /// A panel without an answer.
    pub fn new() -> (panel: BasicInputPanel)
        ensures
            panel.input_text@ == Seq::<char>::empty(),
    {
        BasicInputPanel { input_text: String::new() }
    }

    /// The rows of the panel for an answer that fills `answer_width`
    /// columns, no more than the ten that the field has.
    pub fn rows(&self, answer_width: usize) -> (rows: Vec<String>)
        requires
            answer_width <= 10,
        ensures
            lines_of(rows@) == panel_rows(self.input_text@, answer_width as nat),
    {
        let width: usize = 25;
        let q = "What is your name?";
        proof {
            reveal_strlit("What is your name?");
            lemma_ascii_text(q@, 0, 0);
        }
        let start_q_at: usize = (width - byte_length(q)) / 2;
        let start_a_at: usize = (width - 10) / 2;
        let mut asking = String::new();
        asking.push(DOBLE_VERT_EDGE);
        push_repeated(&mut asking, ' ', start_q_at);
        asking.append(q);
        push_repeated(&mut asking, ' ', start_q_at + 1);
        asking.push(DOBLE_VERT_EDGE);
        assert(asking@ =~= question_row());
        let mut answering = String::new();
        answering.push(DOBLE_VERT_EDGE);
        push_repeated(&mut answering, ' ', start_a_at);
        answering.append(self.input_text.as_str());
        push_repeated(&mut answering, '_', 10 - answer_width);
        push_repeated(&mut answering, ' ', start_a_at + 1);
        answering.push(DOBLE_VERT_EDGE);
        assert(answering@ =~= answer_row(self.input_text@, answer_width as nat));
        let mut rows: Vec<String> = Vec::new();
        rows.push(edge_row(TL_CORNER, TR_CORNER));
        rows.push(blank());
        rows.push(blank());
        rows.push(asking);
        rows.push(blank());
        rows.push(answering);
        rows.push(blank());
        rows.push(blank());
        rows.push(edge_row(BL_CORNER, BR_CORNER));
        assert(lines_of(rows@) =~= panel_rows(self.input_text@, answer_width as nat));
        rows
    }

    /// The rows of the panel as it stands, or `None` where the answer is
    /// wider than the ten columns of its field.
    pub fn print(&self) -> (rows: Option<Vec<String>>)
        ensures
            match rows {
                Some(shown) => display_width(self.input_text@) <= 10 && lines_of(shown@)
                    == panel_rows(self.input_text@, display_width(self.input_text@)),
                None => display_width(self.input_text@) > 10,
            },
    {
        let answer_width: usize = text_width(self.input_text.as_str());
        if answer_width <= 10 {
            Some(self.rows(answer_width))
        } else {
            None
        }
    }

    /// Handles a key. A character is added to an answer of fewer than ten
    /// bytes. Backspace takes the last byte off an answer that has one.
    /// Enter gives the answer.
    pub fn capture_input(&mut self, key: Key) -> (step: PanelStep)
        requires
            key == Key::Backspace && byte_len(old(self).input_text@) > 0 ==> between_chars(
                old(self).input_text@,
                byte_len(old(self).input_text@) - 1,
            ),
        ensures
            match key {
                Key::Char(c) => {
                    &&& step is Redraw
                    &&& final(self).input_text@ == if byte_len(old(self).input_text@) < 10 {
                        old(self).input_text@.push(c)
                    } else {
                        old(self).input_text@
                    }
                },
                Key::Backspace => if byte_len(old(self).input_text@) > 0 {
                    step is Redraw && final(self).input_text@ == without_last_byte(
                        old(self).input_text@,
                    )
                } else {
                    step is Ignore && final(self).input_text == old(self).input_text
                },
                Key::Enter => {
                    &&& final(self).input_text == old(self).input_text
                    &&& step matches PanelStep::Done(name)
                    &&& name@ == old(self).input_text@
                },
                _ => step is Ignore && final(self).input_text == old(self).input_text,
            },
    {
        let max_char_count: usize = 10;
        match key {
            Key::Char(character) => {
                if byte_length(self.input_text.as_str()) < max_char_count {
                    self.input_text.push(character);
                }
                PanelStep::Redraw
            },
            Key::Backspace => {
                let length: usize = byte_length(self.input_text.as_str());
                if length > 0 {
                    proof {
                        vstd::utf8::encode_utf8_valid_utf8(self.input_text@);
                        vstd::utf8::is_char_boundary_start_end_of_seq(
                            vstd::utf8::encode_utf8(self.input_text@),
                        );
                    }
                    let shorter = byte_slice(self.input_text.as_str(), 0, length - 1).to_owned();
                    self.input_text = shorter;
                    PanelStep::Redraw
                } else {
                    PanelStep::Ignore
                }
            },
            Key::Enter => PanelStep::Done(self.input_text.clone()),
            _ => PanelStep::Ignore,
        }
    }
}

} // verus!
