//! The decisions of the ingest side.
//!
//! An ingest connection is read line by line. A line that parses to a valid
//! request is forwarded towards the log writer. A line that does not is a
//! protocol violation: the connection is shut down at once and nothing that
//! follows on it is looked at. Other connections are not affected.

use vstd::prelude::*;
use crate::request::{parse_line, ChatRequest, ChatRequestStatus};

verus! {

/// The ingest listener: the address it binds.
pub struct Server {
    socket: String,
}

impl Server {
    pub fn new(socket: &str) -> (server: Server)
        ensures
            server.socket()@ == socket@,
    {
        Server { socket: socket.to_owned() }
    }

    /// The address that the listener binds.
    pub closed spec fn socket(&self) -> String {
        self.socket
    }

    /// The address that the listener binds.
    pub fn address(&self) -> (socket: &str)
        ensures
            socket@ == self.socket()@,
    {
        self.socket.as_str()
    }
}

/// What the handler of an ingest connection does with one line.
#[derive(Debug, Clone, PartialEq, Eq)]
pub enum IngestAction {
    /// Send the request towards the log writer and read on.
    Forward(ChatRequest),
    /// Shut the connection down in both directions and stop reading.
    Shutdown,
}

/// Decides on one line read from an ingest connection. A line that could
/// not be read counts as the empty line.
pub fn handle_line(line: String) -> (action: IngestAction)
    ensures
        match action {
            IngestAction::Forward(request) => request@ == parse_line(line@)
                && request.status is Valid && request.well_formed(),
            IngestAction::Shutdown => parse_line(line@).status is Invalid,
        },
{
    let request = ChatRequest::from(line);
    match request.status {
        ChatRequestStatus::Valid => IngestAction::Forward(request),
        ChatRequestStatus::Invalid => IngestAction::Shutdown,
    }
}

/// Whether the handler reads on after it tried to send a request: a closed
/// channel ends the connection's task, quietly.
pub fn after_send(delivered: bool) -> (read_on: bool)
    ensures
        read_on == delivered,
{
    delivered
}

/// What became of the lines of one ingest connection.
#[derive(Debug, Clone, PartialEq, Eq)]
pub struct Ingested {
    /// The requests to forward, in the order of their lines.
    pub forwarded: Vec<ChatRequest>,
    /// Whether the connection was shut down for a malformed line.
    pub shut_down: bool,
}

/// Handles the lines that an ingest connection delivers, in order: each
/// line up to the first malformed one gives a request to forward; the first
/// malformed line shuts the connection down, and no later line counts.
pub fn handle_connection(lines: &Vec<String>) -> (outcome: Ingested)
    ensures
        outcome.forwarded@.len() <= lines@.len(),
        forall|i: int|
            0 <= i < outcome.forwarded@.len() ==> {
                &&& (#[trigger] outcome.forwarded@[i])@ == parse_line(lines@[i]@)
                &&& outcome.forwarded@[i].status is Valid
            },
        outcome.shut_down <==> outcome.forwarded@.len() < lines@.len(),
        outcome.shut_down ==> parse_line(
            lines@[outcome.forwarded@.len() as int]@,
        ).status is Invalid,
{
    let mut forwarded: Vec<ChatRequest> = Vec::new();
    let mut k: usize = 0;
    while k < lines.len()
        invariant
            k <= lines@.len(),
            forwarded@.len() == k,
            forall|i: int|
                0 <= i < forwarded@.len() ==> {
                    &&& (#[trigger] forwarded@[i])@ == parse_line(lines@[i]@)
                    &&& forwarded@[i].status is Valid
                },
        decreases lines.len() - k,
    {
        match handle_line(lines[k].clone()) {
            IngestAction::Forward(request) => {
                forwarded.push(request);
            },
            IngestAction::Shutdown => {
                return Ingested { forwarded, shut_down: true };
            },
        }
        k += 1;
    }
    Ingested { forwarded, shut_down: false }
}

} // verus!
