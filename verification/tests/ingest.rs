use chat_service::chatlog::{InMemoryChatBuffer, TailCursor};
use chat_service::request::{ChatRequest, ChatRequestStatus, ChatRequestVerb};
use chat_service::server::{after_send, handle_connection, handle_line, IngestAction, Server};

fn lines(texts: &[&str]) -> Vec<String> {
    texts.iter().map(|text| text.to_string()).collect()
}

#[test]
fn server_keeps_its_address() {
    assert_eq!(Server::new("0.0.0.0:9000").address(), "0.0.0.0:9000");
    assert_eq!(Server::new("").address(), "");
}

#[test]
fn valid_line_is_forwarded() {
    assert_eq!(
        handle_line("[1:alice][2:tx][3:hello]".to_string()),
        IngestAction::Forward(ChatRequest {
            subject: Some("alice".to_string()),
            verb: ChatRequestVerb::TX,
            object: Some("hello".to_string()),
            status: ChatRequestStatus::Valid,
        })
    );
}

#[test]
fn unrecognised_verb_is_forwarded() {
    assert_eq!(
        handle_line("[1:alice][2:dance][3:]".to_string()),
        IngestAction::Forward(ChatRequest {
            subject: Some("alice".to_string()),
            verb: ChatRequestVerb::NONE,
            object: Some(String::new()),
            status: ChatRequestStatus::Valid,
        })
    );
}

#[test]
fn malformed_line_shuts_the_connection_down() {
    assert_eq!(handle_line("[1:bob][2:tx][3:hi]garbage".to_string()), IngestAction::Shutdown);
    assert_eq!(handle_line(String::new()), IngestAction::Shutdown);
}

#[test]
fn closed_channel_ends_the_reading() {
    assert!(after_send(true));
    assert!(!after_send(false));
}

#[test]
fn connection_forwards_every_valid_line() {
    let outcome = handle_connection(&lines(&[
        "[1:alice][2:init][3:]",
        "[1:alice][2:tx][3:hello]",
        "[1:alice][2:end][3:]",
    ]));
    assert!(!outcome.shut_down);
    assert_eq!(outcome.forwarded.len(), 3);
    assert_eq!(outcome.forwarded[0].verb, ChatRequestVerb::INIT);
    assert_eq!(outcome.forwarded[1].object, Some("hello".to_string()));
    assert_eq!(outcome.forwarded[2].verb, ChatRequestVerb::END);
}

#[test]
fn connection_stops_at_the_first_malformed_line() {
    let outcome = handle_connection(&lines(&[
        "[1:alice][2:init][3:]",
        "oops",
        "[1:alice][2:tx][3:never seen]",
    ]));
    assert!(outcome.shut_down);
    assert_eq!(outcome.forwarded.len(), 1);
    assert_eq!(outcome.forwarded[0].subject, Some("alice".to_string()));
}

#[test]
fn connection_without_lines_ends_quietly() {
    let outcome = handle_connection(&Vec::new());
    assert!(!outcome.shut_down);
    assert!(outcome.forwarded.is_empty());
}

#[test]
fn feed_reader_receives_the_log_lines_in_order() {
    let mut log = InMemoryChatBuffer::new();
    let mut reader = TailCursor::new();
    let mut received = String::new();

    for line in ["[1:alice][2:init][3:]", "[1:alice][2:tx][3:hello]"] {
        let outcome = handle_connection(&lines(&[line]));
        assert!(!outcome.shut_down);
        log.listen_for_updates(&outcome.forwarded);
        if let Some(batch) = reader.poll(&log) {
            reader.written(&batch);
            received.push_str(&batch.text);
        }
    }
    let seen: Vec<&str> = received.lines().collect();
    assert_eq!(seen, vec!["alice is connected!", "alice: hello"]);
}

#[test]
fn feed_reader_receives_both_lines_in_one_batch() {
    let mut log = InMemoryChatBuffer::new();
    let reader = TailCursor::new();
    let outcome = handle_connection(&lines(&["[1:alice][2:init][3:]", "[1:alice][2:tx][3:hello]"]));
    log.listen_for_updates(&outcome.forwarded);
    let batch = reader.poll(&log).unwrap();
    assert_eq!(batch.text, "alice is connected!\nalice: hello\n");
}

#[test]
fn malformed_request_closes_the_connection_and_appends_nothing() {
    let mut log = InMemoryChatBuffer::new();
    let outcome = handle_connection(&lines(&["[1:bob][2:tx][3:hi]garbage"]));
    assert!(outcome.shut_down);
    assert!(outcome.forwarded.is_empty());
    log.listen_for_updates(&outcome.forwarded);
    assert_eq!(log.len(), 0);
    assert!(TailCursor::new().poll(&log).is_none());
}
