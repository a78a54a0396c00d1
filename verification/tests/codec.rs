use chat_service::request::{ChatRequest, ChatRequestStatus, ChatRequestVerb};

fn parse(line: &str) -> ChatRequest {
    ChatRequest::from(line.to_string())
}

fn valid(subject: &str, verb: ChatRequestVerb, object: &str) -> ChatRequest {
    ChatRequest {
        subject: Some(subject.to_string()),
        verb,
        object: Some(object.to_string()),
        status: ChatRequestStatus::Valid,
    }
}

fn invalid() -> ChatRequest {
    ChatRequest {
        subject: None,
        verb: ChatRequestVerb::NONE,
        object: None,
        status: ChatRequestStatus::Invalid,
    }
}

#[test]
fn verb_from_keyword() {
    assert_eq!(ChatRequestVerb::from_str("init"), ChatRequestVerb::INIT);
    assert_eq!(ChatRequestVerb::from_str("tx"), ChatRequestVerb::TX);
    assert_eq!(ChatRequestVerb::from_str("end"), ChatRequestVerb::END);
}

#[test]
fn verb_from_other_text_is_none() {
    assert_eq!(ChatRequestVerb::from_str(""), ChatRequestVerb::NONE);
    assert_eq!(ChatRequestVerb::from_str("none"), ChatRequestVerb::NONE);
    assert_eq!(ChatRequestVerb::from_str("INIT"), ChatRequestVerb::NONE);
    assert_eq!(ChatRequestVerb::from_str("Tx"), ChatRequestVerb::NONE);
    assert_eq!(ChatRequestVerb::from_str(" tx"), ChatRequestVerb::NONE);
    assert_eq!(ChatRequestVerb::from_str("end "), ChatRequestVerb::NONE);
}

#[test]
fn verb_keywords() {
    assert_eq!(ChatRequestVerb::INIT.to_string(), "init");
    assert_eq!(ChatRequestVerb::TX.to_string(), "tx");
    assert_eq!(ChatRequestVerb::END.to_string(), "end");
    assert_eq!(ChatRequestVerb::NONE.to_string(), "none");
}

#[test]
fn keyword_decodes_to_its_verb() {
    for verb in [
        ChatRequestVerb::INIT,
        ChatRequestVerb::TX,
        ChatRequestVerb::END,
        ChatRequestVerb::NONE,
    ] {
        assert_eq!(ChatRequestVerb::from_str(verb.to_string()), verb);
    }
}

#[test]
fn parse_init() {
    assert_eq!(parse("[1:alice][2:init][3:]"), valid("alice", ChatRequestVerb::INIT, ""));
}

#[test]
fn parse_tx() {
    assert_eq!(parse("[1:alice][2:tx][3:hello]"), valid("alice", ChatRequestVerb::TX, "hello"));
}

#[test]
fn parse_end() {
    assert_eq!(parse("[1:bob][2:end][3:bye now]"), valid("bob", ChatRequestVerb::END, "bye now"));
}

#[test]
fn parse_unrecognised_verb_stays_valid() {
    assert_eq!(parse("[1:bob][2:shout][3:hey]"), valid("bob", ChatRequestVerb::NONE, "hey"));
    assert_eq!(parse("[1:bob][2:TX][3:hey]"), valid("bob", ChatRequestVerb::NONE, "hey"));
    assert_eq!(parse("[1:bob][2:][3:hey]"), valid("bob", ChatRequestVerb::NONE, "hey"));
}

#[test]
fn parse_empty_fields() {
    assert_eq!(parse("[1:][2:][3:]"), valid("", ChatRequestVerb::NONE, ""));
    assert_eq!(parse("[1:][2:tx][3:]"), valid("", ChatRequestVerb::TX, ""));
}

#[test]
fn parse_takes_each_field_as_short_as_it_can() {
    assert_eq!(
        parse("[1:a][2:b][2:tx][3:d]"),
        valid("a", ChatRequestVerb::NONE, "d")
    );
    assert_eq!(
        parse("[1:a][2:tx][3:b][3:c]"),
        valid("a", ChatRequestVerb::TX, "b][3:c")
    );
    assert_eq!(
        parse("[1:a][2:tx][3:x]y]"),
        valid("a", ChatRequestVerb::TX, "x]y")
    );
    assert_eq!(
        parse("[1:[1:a][2:tx][3:]]"),
        valid("[1:a", ChatRequestVerb::TX, "]")
    );
}

#[test]
fn parse_keeps_other_characters() {
    assert_eq!(
        parse("[1:zoë][2:tx][3:grüße, 世界 \t!]"),
        valid("zoë", ChatRequestVerb::TX, "grüße, 世界 \t!")
    );
    assert_eq!(
        parse("[1:a][2:tx][3:tail\r]"),
        valid("a", ChatRequestVerb::TX, "tail\r")
    );
}

#[test]
fn parse_trailing_text_is_invalid() {
    assert_eq!(parse("[1:bob][2:tx][3:hi]garbage"), invalid());
    assert_eq!(parse("[1:bob][2:tx][3:hi] "), invalid());
    assert_eq!(parse("[1:bob][2:tx][3:hi]\r"), invalid());
}

#[test]
fn parse_leading_text_is_invalid() {
    assert_eq!(parse(" [1:bob][2:tx][3:hi]"), invalid());
    assert_eq!(parse("x[1:bob][2:tx][3:hi]"), invalid());
}

#[test]
fn parse_missing_group_is_invalid() {
    assert_eq!(parse("[1:bob][2:tx]"), invalid());
    assert_eq!(parse("[1:bob][3:hi]"), invalid());
    assert_eq!(parse("[2:tx][3:hi]"), invalid());
    assert_eq!(parse("[1:bob]"), invalid());
    assert_eq!(parse("[1:bob][2:tx][3:hi"), invalid());
    assert_eq!(parse("[1:bob][2:tx][3:"), invalid());
}

#[test]
fn parse_wrong_order_is_invalid() {
    assert_eq!(parse("[2:tx][1:bob][3:hi]"), invalid());
    assert_eq!(parse("[1:bob][3:hi][2:tx]"), invalid());
    assert_eq!(parse("[3:hi][2:tx][1:bob]"), invalid());
}

#[test]
fn parse_other_text_is_invalid() {
    assert_eq!(parse(""), invalid());
    assert_eq!(parse("hello"), invalid());
    assert_eq!(parse("bob: hi"), invalid());
    assert_eq!(parse("[1:bob] [2:tx] [3:hi]"), invalid());
    assert_eq!(parse("[1:bob][2:tx}[3:hi]"), invalid());
}

#[test]
fn parse_line_feed_is_invalid() {
    assert_eq!(parse("[1:bob][2:tx][3:hi]\n"), invalid());
    assert_eq!(parse("[1:bob][2:tx][3:hi]\r\n"), invalid());
    assert_eq!(parse("[1:bob][2:tx][3:h\ni]"), invalid());
    assert_eq!(parse("[1:b\nob][2:tx][3:hi]"), invalid());
}

#[test]
fn serialize_valid() {
    assert_eq!(
        valid("alice", ChatRequestVerb::TX, "hello").to_string_opt(),
        Some("[1:alice][2:tx][3:hello]\r\n".to_string())
    );
    assert_eq!(
        valid("alice", ChatRequestVerb::INIT, "").to_string_opt(),
        Some("[1:alice][2:init][3:]\r\n".to_string())
    );
    assert_eq!(
        valid("alice", ChatRequestVerb::END, "").to_string_opt(),
        Some("[1:alice][2:end][3:]\r\n".to_string())
    );
    assert_eq!(
        valid("alice", ChatRequestVerb::NONE, "x").to_string_opt(),
        Some("[1:alice][2:none][3:x]\r\n".to_string())
    );
}

#[test]
fn serialize_invalid_is_none() {
    assert_eq!(invalid().to_string_opt(), None);
    assert_eq!(parse("[1:bob][2:tx][3:hi]garbage").to_string_opt(), None);
}

#[test]
fn round_trip_keeps_the_line() {
    for line in [
        "[1:alice][2:init][3:]",
        "[1:alice][2:tx][3:hello]",
        "[1:bob][2:end][3:]",
        "[1:][2:tx][3:]",
        "[1:a][2:tx][3:b][3:c]",
        "[1:a][2:tx][3:x]y]",
        "[1:zoë][2:tx][3:grüße]",
    ] {
        let request = parse(line);
        assert_eq!(request.status, ChatRequestStatus::Valid);
        assert_eq!(request.to_string_opt(), Some(format!("{}\r\n", line)));
    }
}

#[test]
fn round_trip_normalises_the_verb() {
    assert_eq!(
        parse("[1:bob][2:shout][3:hey]").to_string_opt(),
        Some("[1:bob][2:none][3:hey]\r\n".to_string())
    );
    assert_eq!(
        parse("[1:bob][2:TX][3:hey]").to_string_opt(),
        Some("[1:bob][2:none][3:hey]\r\n".to_string())
    );
    assert_eq!(
        parse("[1:a][2:b][2:tx][3:d]").to_string_opt(),
        Some("[1:a][2:none][3:d]\r\n".to_string())
    );
}

#[test]
fn wire_form_parses_back() {
    for line in ["[1:alice][2:tx][3:hello]", "[1:bob][2:shout][3:hey]", "[1:][2:][3:]"] {
        let request = parse(line);
        let wire = request.to_string_opt().unwrap();
        let stripped = wire.strip_suffix("\r\n").unwrap();
        assert_eq!(parse(stripped), request);
    }
}

#[test]
fn log_line_of_init() {
    assert_eq!(valid("alice", ChatRequestVerb::INIT, "").to_log(), "alice is connected!");
}

#[test]
fn log_line_of_tx() {
    assert_eq!(valid("alice", ChatRequestVerb::TX, "hello").to_log(), "alice: hello");
    assert_eq!(valid("alice", ChatRequestVerb::TX, "").to_log(), "alice: ");
}

#[test]
fn log_line_of_end() {
    assert_eq!(valid("alice", ChatRequestVerb::END, "ignored").to_log(), "alice disconnected!");
}

#[test]
fn log_line_of_unrecognised_verb() {
    assert_eq!(valid("alice", ChatRequestVerb::NONE, "hello").to_log(), "error");
    assert_eq!(parse("[1:bob][2:shout][3:hey]").to_log(), "error");
}

#[test]
fn log_line_of_missing_fields() {
    let request = ChatRequest {
        subject: None,
        verb: ChatRequestVerb::TX,
        object: None,
        status: ChatRequestStatus::Valid,
    };
    assert_eq!(request.to_log(), "(none): (none)");
}

#[test]
fn parser_agrees_with_the_envelope_pattern() {
    let pattern = regex::Regex::new(r"^\[1:(.*?)\]\[2:(.*?)\]\[3:(.*?)\]$").unwrap();
    let pieces = [
        "", "a", "tx", "init", "end", "]", "[", "][2:", "][3:", "[1:", "]]", "\n", "\r", " ", "ö",
        "][", "2:", "3:",
    ];
    let mut lines: Vec<String> = Vec::new();
    for s in pieces {
        for v in pieces {
            for o in pieces {
                lines.push(format!("[1:{}][2:{}][3:{}]", s, v, o));
                lines.push(format!("[1:{}][2:{}][3:{}", s, v, o));
                lines.push(format!("[1:{}][3:{}][2:{}]", s, o, v));
                lines.push(format!("{}[2:{}][3:{}]", s, v, o));
                lines.push(format!("[1:{}][2:{}][3:{}]{}", s, v, o, s));
            }
        }
    }
    for line in lines {
        let expected = match pattern.captures(&line) {
            Some(groups) => valid(&groups[1], ChatRequestVerb::from_str(&groups[2]), &groups[3]),
            None => invalid(),
        };
        assert_eq!(parse(&line), expected, "line {:?}", line);
    }
}
