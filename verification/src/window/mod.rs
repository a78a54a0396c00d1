//! The chat window of a client: what it holds and what it shows.
//!
//! The functions here compute the rows of text that make up the window and
//! decide what a key does. Putting rows on a terminal and reading keys from
//! it is left to the program.

pub mod constants;
pub mod helpers;
pub mod chat_window;
pub mod chat_input;
pub mod handlers;
pub mod name_input;
