//! What a key does in the input panel.

use vstd::prelude::*;
use crate::request::{wire_form, ChatRequest, ChatRequestStatus, ChatRequestVerb, ChatRequestView};
use crate::text::{
    between_chars, byte_len, byte_length, byte_range, byte_slice, lemma_ascii_text,
};
use crate::window::chat_input::ChatInput;
use crate::window::helpers::{
    adjust_text_for_overflow, input_row, overflow_cut_ok, println_starting_at, Dimensions,
    WindowActions,
};

verus! {

/// What the panels read of a key event.
#[derive(Debug, Clone, Copy, PartialEq, Eq, Structural)]
pub enum Key {
    Char(char),
    Up,
    Down,
    Left,
    Right,
    Enter,
    Backspace,
    /// Any other key.
    Other,
}

/// What the input panel does for a key.
#[derive(Debug, Clone, PartialEq, Eq)]
pub enum KeyAction {
    /// Show this row as the input row.
    Show(String),
    /// Hand this action to the chat window.
    Window(WindowActions),
    /// Write the first text to the ingest connection, then show the second
    /// as the input row.
    Send(String, String),
    /// Nothing to show or send.
    Nothing,
}

/// The request with which a user says something or leaves.
pub open spec fn user_request(name: Seq<char>, verb: ChatRequestVerb, object: Seq<char>)
    -> ChatRequestView {
    ChatRequestView {
        subject: Some(name),
        verb,
        object: Some(object),
        status: ChatRequestStatus::Valid,
    }
}

/// The text without its last byte.
pub open spec fn without_last_byte(text: Seq<char>) -> Seq<char> {
    byte_range(text, 0, byte_len(text) - 1)
}

/// The key can be handled for this text in a window of this width: the
/// window has its six columns of frame, and each cut that the key asks for
/// falls between two characters.
pub open spec fn key_fits(text: Seq<char>, code: Key, width: nat) -> bool {
    match code {
        Key::Char(c) => width >= 6 && overflow_cut_ok(text.push(c), width),
        Key::Enter => width >= 6,
        Key::Backspace => byte_len(text) > 0 ==> {
            &&& width >= 6
            &&& between_chars(text, byte_len(text) - 1)
            &&& overflow_cut_ok(without_last_byte(text), width)
        },
        _ => true,
    }
}

/// The farewell of the input panel: for control and `c`, the `end` request
/// of the user in wire form, which the program writes before it leaves;
/// for any other key, nothing.
pub fn handle_modified_keys(cw: &ChatInput, control: bool, code: Key) -> (farewell: Option<String>)
    ensures
        match farewell {
            Some(wire) => control && code == Key::Char('c') && Some(wire@) == wire_form(
                user_request(cw.name@, ChatRequestVerb::END, Seq::empty()),
            ),
            None => !(control && code == Key::Char('c')),
        },
{
    match code {
        Key::Char(c) => {
            if control && c == 'c' {
                let request = ChatRequest {
                    subject: Some(cw.name.clone()),
                    verb: ChatRequestVerb::END,
                    object: Some(String::new()),
                    status: ChatRequestStatus::Valid,
                };
                request.to_string_opt()
            } else {
                None
            }
        },
        _ => None,
    }
}

/// Handles a key in the input panel. A character is added to the text, and
/// the input row shown again unless control was held. An arrow is handed to
/// the chat window. Enter sends the text as a `tx` request and empties it.
/// Backspace takes the last byte off a text that has one.
pub fn handle_key_codes(cw: &mut ChatInput, control: bool, code: Key, dimensions: Dimensions) -> (action:
    KeyAction)
    requires
        key_fits(old(cw).text@, code, dimensions.width as nat),
    ensures
        final(cw).name == old(cw).name,
        final(cw).dimensions == old(cw).dimensions,
        match code {
            Key::Char(c) => {
                &&& final(cw).text@ == old(cw).text@.push(c)
                &&& if control {
                    action is Nothing
                } else {
                    action matches KeyAction::Show(row) && row@ == input_row(
                        final(cw).text@,
                        dimensions.width as nat,
                    )
                }
            },
            Key::Up => final(cw).text == old(cw).text && action == KeyAction::Window(
                WindowActions::ScrollUp,
            ),
            Key::Down => final(cw).text == old(cw).text && action == KeyAction::Window(
                WindowActions::ScrollDown,
            ),
            Key::Left => final(cw).text == old(cw).text && action == KeyAction::Window(
                WindowActions::CursorLeft,
            ),
            Key::Right => final(cw).text == old(cw).text && action == KeyAction::Window(
                WindowActions::CursorRight,
            ),
            Key::Enter => {
                &&& final(cw).text@ == Seq::<char>::empty()
                &&& action matches KeyAction::Send(wire, row)
                &&& Some(wire@) == wire_form(
                    user_request(old(cw).name@, ChatRequestVerb::TX, old(cw).text@),
                )
                &&& row@ == input_row(Seq::empty(), dimensions.width as nat)
            },
            Key::Backspace => if byte_len(old(cw).text@) > 0 {
                &&& final(cw).text@ == without_last_byte(old(cw).text@)
                &&& action matches KeyAction::Show(row)
                &&& row@ == input_row(final(cw).text@, dimensions.width as nat)
            } else {
                final(cw).text == old(cw).text && action is Nothing
            },
            Key::Other => final(cw).text == old(cw).text && action is Nothing,
        },
{
    match code {
        Key::Char(c) => {
            cw.text.push(c);
            let text_to_print = adjust_text_for_overflow(cw.text.clone(), dimensions);
            if !control {
                KeyAction::Show(println_starting_at(text_to_print.as_str(), dimensions))
            } else {
                KeyAction::Nothing
            }
        },
        Key::Up => KeyAction::Window(WindowActions::ScrollUp),
        Key::Down => KeyAction::Window(WindowActions::ScrollDown),
        Key::Left => KeyAction::Window(WindowActions::CursorLeft),
        Key::Right => KeyAction::Window(WindowActions::CursorRight),
        Key::Enter => {
            let request = ChatRequest {
                subject: Some(cw.name.clone()),
                verb: ChatRequestVerb::TX,
                object: Some(cw.text.clone()),
                status: ChatRequestStatus::Valid,
            };
            let target_string = request.to_string_opt().unwrap();
            cw.text = String::new();
            proof {
                lemma_ascii_text(Seq::<char>::empty(), 0, 0);
            }
            let row = println_starting_at(cw.text.as_str(), dimensions);
            KeyAction::Send(target_string, row)
        },
        Key::Backspace => {
            let length: usize = byte_length(cw.text.as_str());
            if length > 0 {
                proof {
                    vstd::utf8::encode_utf8_valid_utf8(cw.text@);
                    vstd::utf8::is_char_boundary_start_end_of_seq(
                        vstd::utf8::encode_utf8(cw.text@),
                    );
                }
                let shorter = byte_slice(cw.text.as_str(), 0, length - 1).to_owned();
                cw.text = shorter;
                let text_to_print = adjust_text_for_overflow(cw.text.clone(), dimensions);
                KeyAction::Show(println_starting_at(text_to_print.as_str(), dimensions))
            } else {
                KeyAction::Nothing
            }
        },
        Key::Other => KeyAction::Nothing,
    }
}

} // verus!
