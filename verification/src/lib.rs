//! A minimal multi-party text relay, as verified state and decisions.
//!
//! Clients submit bracket-tagged requests on an ingest connection; valid
//! requests are rendered and appended to a shared, append-only log; every feed
//! connection tails that log through a cursor of its own. The functions here
//! are the decisions of that engine and of a terminal client: they take plain
//! values and return plain values, and the program around them does the
//! socket, thread and terminal work.
//!
//! - `request`: the wire protocol of chat requests.
//! - `chatlog`: the shared log and the cursors that tail it.
//! - `threadpool`: the slot table of the worker dispatcher.
//! - `server`: what the ingest side does with a line.
//! - `bot`: when a feed line wakes the bot, and how it answers.
//! - `window`: the rows of a client window and what its keys do.
//! - `text`: markers in texts, and texts counted in bytes.

pub mod text;
pub mod request;
pub mod chatlog;
pub mod threadpool;
pub mod server;
pub mod bot;
pub mod window;
