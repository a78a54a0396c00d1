//! The input panel of a client window.

use vstd::prelude::*;
use crate::request::{wire_form, ChatRequest, ChatRequestStatus, ChatRequestVerb};
use crate::window::chat_window::{height_or_default, width_or_default};
use crate::window::constants::{MAX_WINDOW_HEIGHT, MAX_WINDOW_WIDTH};
use crate::window::handlers::user_request;
use crate::window::helpers::{Dimensions, WindowActions};

verus! {

/// The input panel: the text typed so far, the name of the user and the
/// size of the window.
#[derive(Debug, Clone, PartialEq, Eq)]
pub struct ChatInput {
    pub text: String,
    pub name: String,
    pub dimensions: Dimensions,
}

impl ChatInput {
    /// An input panel without text for `name`, 65 columns wide and 10 rows
    /// high where no size is given.
    pub fn new(name: String, width: Option<usize>, height: Option<usize>) -> (input: ChatInput)
        ensures
            input.text@ == Seq::<char>::empty(),
            input.name@ == name@,
            input.dimensions == (Dimensions {
                width: width_or_default(width),
                height: height_or_default(height),
            }),
    {
        let actual_width: usize = match width {
            Some(w) => w,
            None => MAX_WINDOW_WIDTH as usize,
        };
        let actual_height: usize = match height {
            Some(h) => h,
            None => MAX_WINDOW_HEIGHT as usize,
        };
        ChatInput {
            text: String::new(),
            name,
            dimensions: Dimensions { width: actual_width, height: actual_height },
        }
    }

    /// The request that announces the user, in wire form: the first thing
    /// that the panel writes to the ingest connection.
    pub fn greeting(&self) -> (wire: String)
        ensures
            Some(wire@) == wire_form(
                user_request(self.name@, ChatRequestVerb::INIT, Seq::empty()),
            ),
    {
        let request = ChatRequest {
            subject: Some(self.name.clone()),
            verb: ChatRequestVerb::INIT,
            object: Some(String::new()),
            status: ChatRequestStatus::Valid,
        };
        request.to_string_opt().unwrap()
    }

    /// Takes the new size of a terminal of `x` columns and `y` rows, and
    /// returns what the chat window is told: its own size is two rows less
    /// than the terminal, the panel's four rows less.
    pub fn resize(&mut self, x: u16, y: u16) -> (action: WindowActions)
        requires
            y >= 4,
        ensures
            action == WindowActions::Resize(x as usize, (y - 2) as usize),
            final(self).dimensions == (Dimensions { width: x as usize, height: (y - 4) as usize }),
            final(self).text == old(self).text,
            final(self).name == old(self).name,
    {
        self.dimensions.width = x as usize;
        self.dimensions.height = y as usize - 4;
        WindowActions::Resize(x as usize, y as usize - 2)
    }
}

} // verus!
