use chat_service::bot::{message_of, reply_requests, wake_outcome, wake_regex, BadPattern, Bot};
use chat_service::request::{ChatRequest, ChatRequestStatus, ChatRequestVerb};
use regex::Regex;

fn bot(pattern: &str) -> Bot {
    Bot::new(pattern.to_string())
}

#[test]
fn message_is_the_text_behind_the_speaker() {
    assert_eq!(message_of("alice: /paolobot tell me a joke"), "/paolobot tell me a joke");
    assert_eq!(message_of("alice: hello"), "hello");
    assert_eq!(message_of("alice: "), "");
}

#[test]
fn message_ends_at_the_next_separator() {
    assert_eq!(message_of("alice: note: this"), "note");
    assert_eq!(message_of("a: : b"), "");
    assert_eq!(message_of(": x"), "x");
    assert_eq!(message_of("a: b:c"), "b:c");
}

#[test]
fn line_without_separator_has_no_message() {
    assert_eq!(message_of("alice is connected!"), "");
    assert_eq!(message_of(""), "");
    assert_eq!(message_of("a:b"), "");
    assert_eq!(message_of("error"), "");
}

#[test]
fn wake_regex_wraps_the_pattern() {
    assert_eq!(wake_regex("/paolobot"), "^/paolobot *(.*)$");
    assert_eq!(wake_regex(""), "^ *(.*)$");
    assert_eq!(wake_regex("hey|ho"), "^hey|ho *(.*)$");
}

#[test]
fn wake_word_hands_the_rest_to_the_callback() {
    assert_eq!(
        bot("/paolobot").wake("alice: /paolobot tell me a joke"),
        Ok(Some("tell me a joke".to_string()))
    );
}

#[test]
fn wake_word_skips_any_number_of_spaces() {
    assert_eq!(bot("/paolobot").wake("alice: /paolobot"), Ok(Some(String::new())));
    assert_eq!(bot("/paolobot").wake("alice: /paolobot     hi"), Ok(Some("hi".to_string())));
    assert_eq!(bot("/paolobot").wake("alice: /paolobothi"), Ok(Some("hi".to_string())));
}

#[test]
fn other_lines_do_not_wake() {
    assert_eq!(bot("/paolobot").wake("alice: hello /paolobot"), Ok(None));
    assert_eq!(bot("/paolobot").wake("alice:  /paolobot hi"), Ok(None));
    assert_eq!(bot("/paolobot").wake("alice: /PaoloBot hi"), Ok(None));
    assert_eq!(bot("/paolobot").wake("/paolobot hi"), Ok(None));
    assert_eq!(bot("/paolobot").wake("alice is connected!"), Ok(None));
}

#[test]
fn wake_pattern_is_a_regular_expression() {
    assert_eq!(bot("bot[0-9]+").wake("alice: bot42 go"), Ok(Some("go".to_string())));
    assert_eq!(bot("bot[0-9]+").wake("alice: bot go"), Ok(None));
}

#[test]
fn group_in_the_pattern_comes_first() {
    assert_eq!(bot("(hey|ho)").wake("alice: ho there"), Ok(Some("ho".to_string())));
    assert_eq!(bot("(a)|b").wake("alice: b x"), Ok(None));
}

#[test]
fn bad_pattern_never_wakes() {
    assert_eq!(bot("(").wake("alice: ( hi"), Err(BadPattern));
    assert_eq!(bot("[").wake("alice is connected!"), Err(BadPattern));
}

#[test]
fn outcome_keeps_what_was_found() {
    assert_eq!(wake_outcome(Ok(Some("joke".to_string()))), Ok(Some("joke".to_string())));
    assert_eq!(wake_outcome(Ok(None)), Ok(None));
    let refused = Regex::new("(").unwrap_err();
    assert_eq!(wake_outcome(Err(refused)), Err(BadPattern));
}

#[test]
fn listen_on_collects_the_wake_texts() {
    let feed: Vec<String> = vec![
        "alice is connected!".to_string(),
        "alice: /paolobot tell me a joke".to_string(),
        "bob: hello".to_string(),
        "bob: /paolobot   and another".to_string(),
        "error".to_string(),
        "bob: /paolobot".to_string(),
    ];
    assert_eq!(
        bot("/paolobot").listen_on(&feed),
        vec!["tell me a joke".to_string(), "and another".to_string(), String::new()]
    );
    assert!(bot("(").listen_on(&feed).is_empty());
    assert!(bot("/paolobot").listen_on(&Vec::new()).is_empty());
}

#[test]
fn each_reply_line_is_one_tx_request_from_the_bot() {
    let reply: Vec<String> = vec!["Why did the chicken".to_string(), "cross the road?".to_string()];
    let wires = reply_requests(&reply);
    assert_eq!(
        wires,
        vec![
            "[1:Bot][2:tx][3:Why did the chicken]\r\n".to_string(),
            "[1:Bot][2:tx][3:cross the road?]\r\n".to_string(),
        ]
    );
    for (wire, line) in wires.iter().zip(reply.iter()) {
        let request = ChatRequest::from(wire.trim_end_matches("\r\n").to_string());
        assert_eq!(request.status, ChatRequestStatus::Valid);
        assert_eq!(request.verb, ChatRequestVerb::TX);
        assert_eq!(request.subject, Some("Bot".to_string()));
        assert_eq!(request.object.as_ref(), Some(line));
    }
}

#[test]
fn empty_reply_gives_no_request() {
    assert!(reply_requests(&Vec::new()).is_empty());
}

#[test]
fn message_is_the_second_part_of_the_split_line() {
    let pieces = ["", "a", ":", " ", ": ", "b c", "::", " :", ":  ", "é"];
    for first in pieces {
        for second in pieces {
            for third in pieces {
                for fourth in pieces {
                    let line = format!("{}{}{}{}", first, second, third, fourth);
                    let parts: Vec<&str> = line.split(": ").collect();
                    let expected = if parts.len() > 1 { parts[1] } else { "" };
                    assert_eq!(message_of(&line), expected, "line {:?}", line);
                }
            }
        }
    }
}
