//! The wire protocol of chat requests.
//!
//! A request travels as one line of text, the envelope
//! `[1:<subject>][2:<verb>][3:<object>]`. Parsing a line never fails: a line
//! that is no envelope yields a request marked invalid. Each field is taken
//! as short as it can be, so the subject ends at the first `][2:` and the verb
//! at the first `][3:` behind it. A line feed belongs to no field.

use vstd::prelude::*;
use crate::text::{
    chars_of, find_marker, first_marker, first_marker_at, has_line_feed, has_marker_from,
    lemma_first_marker_is, lemma_marker_has_first, marker_at, no_line_feed, no_marker_from,
    stands_at,
};

verus! {

/// Whether a line was an envelope.
#[derive(Debug, Clone, Copy, PartialEq, Eq, Structural)]
pub enum ChatRequestStatus {
    Valid,
    Invalid,
}

/// The action a request asks for. `NONE` stands for any verb text that is
/// not one of the three keywords.
#[derive(Debug, Clone, Copy, PartialEq, Eq, Structural)]
pub enum ChatRequestVerb {
    INIT,
    TX,
    END,
    NONE,
}

/// The lowercase keyword under which a verb travels.
pub open spec fn verb_keyword(verb: ChatRequestVerb) -> Seq<char> {
    match verb {
        ChatRequestVerb::INIT => "init"@,
        ChatRequestVerb::TX => "tx"@,
        ChatRequestVerb::END => "end"@,
        ChatRequestVerb::NONE => "none"@,
    }
}

/// The verb that a verb text stands for: exact, case-sensitive keywords only.
pub open spec fn decode_verb(text: Seq<char>) -> ChatRequestVerb {
    if text == "init"@ {
        ChatRequestVerb::INIT
    } else if text == "tx"@ {
        ChatRequestVerb::TX
    } else if text == "end"@ {
        ChatRequestVerb::END
    } else {
        ChatRequestVerb::NONE
    }
}

impl ChatRequestVerb {
    pub fn from_str(string: &str) -> (verb: ChatRequestVerb)
        ensures
            verb == decode_verb(string@),
    {
        let given = string.to_owned();
        if given == "init".to_owned() {
            ChatRequestVerb::INIT
        } else if given == "tx".to_owned() {
            ChatRequestVerb::TX
        } else if given == "end".to_owned() {
            ChatRequestVerb::END
        } else {
            ChatRequestVerb::NONE
        }
    }

    pub fn to_string(&self) -> (keyword: &'static str)
        ensures
            keyword@ == verb_keyword(*self),
    {
        match self {
            ChatRequestVerb::INIT => "init",
            ChatRequestVerb::TX => "tx",
            ChatRequestVerb::END => "end",
            ChatRequestVerb::NONE => "none",
        }
    }
}

/// Decoding a verb's keyword gives the verb back. For `NONE` this holds
/// because `none` is no keyword of the protocol and decodes as any other
/// unrecognised text does.
pub proof fn lemma_keyword_decodes(verb: ChatRequestVerb)
    ensures
        decode_verb(verb_keyword(verb)) == verb,
{
    reveal_strlit("init");
    reveal_strlit("tx");
    reveal_strlit("end");
    reveal_strlit("none");
    assert("init"@.len() == 4 && "tx"@.len() == 2 && "end"@.len() == 3 && "none"@.len() == 4);
    assert("none"@[0] == 'n' && "init"@[0] == 'i');
}

/// A parsed protocol unit.
#[derive(Debug, Clone, PartialEq, Eq)]
pub struct ChatRequest {
    pub subject: Option<String>,
    pub verb: ChatRequestVerb,
    pub object: Option<String>,
    pub status: ChatRequestStatus,
}

/// What a request holds, as plain values.
pub struct ChatRequestView {
    pub subject: Option<Seq<char>>,
    pub verb: ChatRequestVerb,
    pub object: Option<Seq<char>>,
    pub status: ChatRequestStatus,
}

impl ChatRequestView {
    /// A valid request has its subject and its object.
    pub open spec fn well_formed(self) -> bool {
        self.status is Valid ==> self.subject is Some && self.object is Some
    }
}

/// The characters of an optional string.
pub open spec fn text_of(field: Option<String>) -> Option<Seq<char>> {
    match field {
        Some(s) => Some(s@),
        None => None,
    }
}

impl View for ChatRequest {
    type V = ChatRequestView;

    open spec fn view(&self) -> ChatRequestView {
        ChatRequestView {
            subject: text_of(self.subject),
            verb: self.verb,
            object: text_of(self.object),
            status: self.status,
        }
    }
}

/// `[1:`, which opens an envelope.
pub open spec fn subject_marker() -> Seq<char> {
    "[1:"@
}

/// `][2:`, which ends the subject and opens the verb.
pub open spec fn verb_marker() -> Seq<char> {
    "][2:"@
}

/// `][3:`, which ends the verb and opens the object.
pub open spec fn object_marker() -> Seq<char> {
    "][3:"@
}

/// `]`, which closes an envelope.
pub open spec fn closing_marker() -> Seq<char> {
    "]"@
}

/// Carriage return and line feed, which end a request on the wire.
pub open spec fn line_terminator() -> Seq<char> {
    "\r\n"@
}

/// The envelope around three field texts.
#[verifier::opaque]
pub open spec fn envelope(subject: Seq<char>, verb: Seq<char>, object: Seq<char>) -> Seq<char> {
    subject_marker() + subject + verb_marker() + verb + object_marker() + object
        + closing_marker()
}

/// The index at which the subject of an envelope ends.
pub open spec fn subject_end(line: Seq<char>) -> int {
    first_marker(line, verb_marker(), 3)
}

/// The index at which the verb of an envelope ends.
pub open spec fn verb_end(line: Seq<char>) -> int {
    first_marker(line, object_marker(), subject_end(line) + 4)
}

/// `line` is an envelope from its first character to its last.
pub open spec fn is_envelope(line: Seq<char>) -> bool {
    &&& no_line_feed(line)
    &&& marker_at(line, subject_marker(), 0)
    &&& has_marker_from(line, verb_marker(), 3)
    &&& has_marker_from(line, object_marker(), subject_end(line) + 4)
    &&& verb_end(line) + 5 <= line.len()
    &&& line[line.len() - 1] == ']'
}

/// The subject text of an envelope.
pub open spec fn subject_text(line: Seq<char>) -> Seq<char> {
    line.subrange(3, subject_end(line))
}

/// The verb text of an envelope.
pub open spec fn verb_text(line: Seq<char>) -> Seq<char> {
    line.subrange(subject_end(line) + 4, verb_end(line))
}

/// The object text of an envelope.
pub open spec fn object_text(line: Seq<char>) -> Seq<char> {
    line.subrange(verb_end(line) + 4, line.len() - 1)
}

/// What any line that is no envelope parses to.
pub open spec fn invalid_request() -> ChatRequestView {
    ChatRequestView {
        subject: None,
        verb: ChatRequestVerb::NONE,
        object: None,
        status: ChatRequestStatus::Invalid,
    }
}

/// The request that a line stands for.
pub open spec fn parse_line(line: Seq<char>) -> ChatRequestView {
    if is_envelope(line) {
        ChatRequestView {
            subject: Some(subject_text(line)),
            verb: decode_verb(verb_text(line)),
            object: Some(object_text(line)),
            status: ChatRequestStatus::Valid,
        }
    } else {
        invalid_request()
    }
}

/// The wire form of a request: its envelope with the verb as its keyword,
/// then the line terminator. An invalid request has none.
pub open spec fn wire_form(request: ChatRequestView) -> Option<Seq<char>>
    recommends
        request.well_formed(),
{
    if request.status is Valid {
        Some(
            envelope(request.subject->0, verb_keyword(request.verb), request.object->0)
                + line_terminator(),
        )
    } else {
        None
    }
}

/// A field's text, or `(none)` where the field is missing.
pub open spec fn shown(field: Option<Seq<char>>) -> Seq<char> {
    match field {
        Some(text) => text,
        None => "(none)"@,
    }
}

/// The line that a valid request leaves in the chat log.
pub open spec fn log_line(request: ChatRequestView) -> Seq<char> {
    match request.verb {
        ChatRequestVerb::INIT => shown(request.subject) + " is connected!"@,
        ChatRequestVerb::TX => shown(request.subject) + ": "@ + shown(request.object),
        ChatRequestVerb::END => shown(request.subject) + " disconnected!"@,
        ChatRequestVerb::NONE => "error"@,
    }
}

fn invalid() -> (request: ChatRequest)
    ensures
        request@ == invalid_request(),
{
    ChatRequest {
        subject: None,
        verb: ChatRequestVerb::NONE,
        object: None,
        status: ChatRequestStatus::Invalid,
    }
}

fn field_str(field: &Option<String>) -> (text: &str)
    ensures
        text@ == shown(text_of(*field)),
{
    match field {
        Some(s) => s.as_str(),
        None => "(none)",
    }
}

impl ChatRequest {
    /// A valid request has its subject and its object.
    pub open spec fn well_formed(&self) -> bool {
        self@.well_formed()
    }

    /// Parses one line. The result is valid exactly when the whole line is
    /// an envelope; a malformed line is an ordinary outcome, not an error.
    pub fn from(string: String) -> (request: ChatRequest)
        ensures
            request@ == parse_line(string@),
            request.well_formed(),
    {
        let line = string.as_str();
        let chars = chars_of(line);
        let n = chars.len();
        let opening: Vec<char> = chars_of("[1:");
        let to_verb: Vec<char> = chars_of("][2:");
        let to_object: Vec<char> = chars_of("][3:");
        proof {
            reveal_strlit("[1:");
            reveal_strlit("][2:");
            reveal_strlit("][3:");
        }
        if has_line_feed(&chars) || !stands_at(&chars, &opening, 0) {
            return invalid();
        }
        let i = match find_marker(&chars, &to_verb, 3) {
            Some(i) => i,
            None => {
                return invalid();
            },
        };
        proof {
            lemma_first_marker_is(chars@, verb_marker(), 3, i as int);
        }
        let j = match find_marker(&chars, &to_object, i + 4) {
            Some(j) => j,
            None => {
                return invalid();
            },
        };
        proof {
            lemma_first_marker_is(chars@, object_marker(), i + 4, j as int);
        }
        if n - j < 5 || chars[n - 1] != ']' {
            return invalid();
        }
        ChatRequest {
            subject: Some(line.substring_char(3, i).to_owned()),
            verb: ChatRequestVerb::from_str(line.substring_char(i + 4, j)),
            object: Some(line.substring_char(j + 4, n - 1).to_owned()),
            status: ChatRequestStatus::Valid,
        }
    }

    /// The wire form of a valid request; `None` for an invalid one.
    pub fn to_string_opt(&self) -> (wire: Option<String>)
        requires
            self.well_formed(),
        ensures
            match wire {
                Some(text) => wire_form(self@) == Some(text@),
                None => wire_form(self@) is None,
            },
            wire is None <==> self.status is Invalid,
    {
        match self.status {
            ChatRequestStatus::Valid => {
                proof {
                    reveal(envelope);
                }
                let mut text = String::from_str("[1:");
                text.append(field_str(&self.subject));
                text.append("][2:");
                text.append(self.verb.to_string());
                text.append("][3:");
                text.append(field_str(&self.object));
                text.append("]");
                text.append("\r\n");
                Some(text)
            },
            ChatRequestStatus::Invalid => None,
        }
    }

    /// The line that a valid request leaves in the chat log. An invalid
    /// request has none: test `status` before the call.
    pub fn to_log(&self) -> (line: String)
        requires
            self.status is Valid,
        ensures
            line@ == log_line(self@),
    {
        match self.verb {
            ChatRequestVerb::INIT => {
                let mut line = String::from_str(field_str(&self.subject));
                line.append(" is connected!");
                line
            },
            ChatRequestVerb::TX => {
                let mut line = String::from_str(field_str(&self.subject));
                line.append(": ");
                line.append(field_str(&self.object));
                line
            },
            ChatRequestVerb::END => {
                let mut line = String::from_str(field_str(&self.subject));
                line.append(" disconnected!");
                line
            },
            ChatRequestVerb::NONE => String::from_str("error"),
        }
    }
}

/// `line` is the envelope around `subject`, `verb` and `object`, none of
/// which holds a line feed.
pub open spec fn is_envelope_of(
    line: Seq<char>,
    subject: Seq<char>,
    verb: Seq<char>,
    object: Seq<char>,
) -> bool {
    &&& line == envelope(subject, verb, object)
    &&& no_line_feed(subject)
    &&& no_line_feed(verb)
    &&& no_line_feed(object)
}

/// `marker` stands nowhere in `text`.
pub open spec fn free_of(text: Seq<char>, marker: Seq<char>) -> bool {
    no_marker_from(text, marker, 0)
}

proof fn lemma_marker_texts()
    ensures
        subject_marker() =~= seq!['[', '1', ':'],
        verb_marker() =~= seq![']', '[', '2', ':'],
        object_marker() =~= seq![']', '[', '3', ':'],
        closing_marker() =~= seq![']'],
        line_terminator() =~= seq!['\r', '\n'],
{
    reveal_strlit("[1:");
    reveal_strlit("][2:");
    reveal_strlit("][3:");
    reveal_strlit("]");
    reveal_strlit("\r\n");
}

/// Where each part of an envelope stands in it.
pub proof fn lemma_envelope_parts(subject: Seq<char>, verb: Seq<char>, object: Seq<char>)
    ensures
        ({
            let line = envelope(subject, verb, object);
            let a = subject.len() as int + 3;
            let b = a + 4 + verb.len() as int;
            &&& line.len() == b + 5 + object.len()
            &&& line.subrange(0, 3) == subject_marker()
            &&& line.subrange(3, a) == subject
            &&& line.subrange(a, a + 4) == verb_marker()
            &&& line.subrange(a + 4, b) == verb
            &&& line.subrange(b, b + 4) == object_marker()
            &&& line.subrange(b + 4, line.len() - 1) == object
            &&& line[line.len() - 1] == ']'
        }),
{
    reveal(envelope);
    lemma_marker_texts();
    let line = envelope(subject, verb, object);
    let a = subject.len() as int + 3;
    let b = a + 4 + verb.len() as int;
    let e1 = subject_marker() + subject;
    let e2 = e1 + verb_marker();
    let e3 = e2 + verb;
    let e4 = e3 + object_marker();
    let e5 = e4 + object;
    assert(line == e5 + closing_marker());
    assert(e1.len() == a && e2.len() == a + 4 && e3.len() == b && e4.len() == b + 4);
    assert(e5.len() == b + 4 + object.len());
    assert(line.subrange(0, 3) =~= subject_marker());
    assert(line.subrange(3, a) =~= subject);
    assert(line.subrange(a, a + 4) =~= verb_marker());
    assert(line.subrange(a + 4, b) =~= verb);
    assert(line.subrange(b, b + 4) =~= object_marker());
    assert(line.subrange(b + 4, line.len() - 1) =~= object);
}

/// A line whose parts stand as those of an envelope is that envelope.
proof fn lemma_envelope_from_parts(
    line: Seq<char>,
    subject: Seq<char>,
    verb: Seq<char>,
    object: Seq<char>,
)
    requires
        ({
            let a = subject.len() as int + 3;
            let b = a + 4 + verb.len() as int;
            &&& line.len() == b + 5 + object.len()
            &&& line.subrange(0, 3) == subject_marker()
            &&& line.subrange(3, a) == subject
            &&& line.subrange(a, a + 4) == verb_marker()
            &&& line.subrange(a + 4, b) == verb
            &&& line.subrange(b, b + 4) == object_marker()
            &&& line.subrange(b + 4, line.len() - 1) == object
            &&& line[line.len() - 1] == ']'
        }),
    ensures
        line == envelope(subject, verb, object),
{
    lemma_envelope_parts(subject, verb, object);
    let built = envelope(subject, verb, object);
    let a = subject.len() as int + 3;
    let b = a + 4 + verb.len() as int;
    assert forall|k: int| 0 <= k < line.len() implies line[k] == built[k] by {
        if k < 3 {
            assert(line.subrange(0, 3)[k] == built.subrange(0, 3)[k]);
        } else if k < a {
            assert(line.subrange(3, a)[k - 3] == built.subrange(3, a)[k - 3]);
        } else if k < a + 4 {
            assert(line.subrange(a, a + 4)[k - a] == built.subrange(a, a + 4)[k - a]);
        } else if k < b {
            assert(line.subrange(a + 4, b)[k - a - 4] == built.subrange(a + 4, b)[k - a - 4]);
        } else if k < b + 4 {
            assert(line.subrange(b, b + 4)[k - b] == built.subrange(b, b + 4)[k - b]);
        } else if k < line.len() - 1 {
            assert(line.subrange(b + 4, line.len() - 1)[k - b - 4] == built.subrange(
                b + 4,
                line.len() - 1,
            )[k - b - 4]);
        } else {
        }
    }
    assert(line =~= built);
}

/// A part of a text without a line feed holds none.
proof fn lemma_part_no_line_feed(line: Seq<char>, from: int, to: int)
    requires
        no_line_feed(line),
        0 <= from <= to <= line.len(),
    ensures
        no_line_feed(line.subrange(from, to)),
{
    assert forall|k: int| 0 <= k < to - from implies line.subrange(from, to)[k] != '\n' by {
        assert(line.subrange(from, to)[k] == line[from + k]);
    }
}

/// A marker that stands in a part of a text stands in the text.
proof fn lemma_marker_in_part(line: Seq<char>, from: int, to: int, marker: Seq<char>, m: int)
    requires
        0 <= from <= to <= line.len(),
        marker_at(line.subrange(from, to), marker, m),
    ensures
        marker_at(line, marker, from + m),
{
    assert(line.subrange(from, to).subrange(m, m + marker.len()) =~= line.subrange(
        from + m,
        from + m + marker.len(),
    ));
}

/// An envelope is made of its three field texts: the line is the envelope
/// around them, the subject holds no `][2:` and the verb no `][3:`.
pub proof fn lemma_envelope_fields(line: Seq<char>)
    requires
        is_envelope(line),
    ensures
        is_envelope_of(line, subject_text(line), verb_text(line), object_text(line)),
        free_of(subject_text(line), verb_marker()),
        free_of(verb_text(line), object_marker()),
{
    lemma_marker_texts();
    let i = subject_end(line);
    let j = verb_end(line);
    assert(first_marker_at(line, verb_marker(), 3, i));
    assert(first_marker_at(line, object_marker(), i + 4, j));
    let s = subject_text(line);
    let v = verb_text(line);
    let o = object_text(line);
    lemma_envelope_from_parts(line, s, v, o);
    lemma_part_no_line_feed(line, 3, i);
    lemma_part_no_line_feed(line, i + 4, j);
    lemma_part_no_line_feed(line, j + 4, line.len() - 1);
    assert forall|m: int| 0 <= m implies !marker_at(s, verb_marker(), m) by {
        if marker_at(s, verb_marker(), m) {
            lemma_marker_in_part(line, 3, i, verb_marker(), m);
        }
    }
    assert forall|m: int| 0 <= m implies !marker_at(v, object_marker(), m) by {
        if marker_at(v, object_marker(), m) {
            lemma_marker_in_part(line, i + 4, j, object_marker(), m);
        }
    }
}

/// Every envelope around three texts without a line feed is an envelope
/// line, whatever else the texts hold.
pub proof fn lemma_envelope_is_valid(subject: Seq<char>, verb: Seq<char>, object: Seq<char>)
    requires
        no_line_feed(subject),
        no_line_feed(verb),
        no_line_feed(object),
    ensures
        is_envelope(envelope(subject, verb, object)),
        parse_line(envelope(subject, verb, object)).status is Valid,
{
    lemma_marker_texts();
    lemma_envelope_parts(subject, verb, object);
    let line = envelope(subject, verb, object);
    let a = subject.len() as int + 3;
    let b = a + 4 + verb.len() as int;
    lemma_marker_has_first(line, verb_marker(), 3, a);
    let i = subject_end(line);
    lemma_marker_has_first(line, object_marker(), i + 4, b);
    assert forall|k: int| 0 <= k < line.len() implies line[k] != '\n' by {
        if k < 3 {
            assert(line.subrange(0, 3)[k] == line[k]);
        } else if k < a {
            assert(line.subrange(3, a)[k - 3] == line[k]);
        } else if k < a + 4 {
            assert(line.subrange(a, a + 4)[k - a] == line[k]);
        } else if k < b {
            assert(line.subrange(a + 4, b)[k - a - 4] == line[k]);
        } else if k < b + 4 {
            assert(line.subrange(b, b + 4)[k - b] == line[k]);
        } else if k < line.len() - 1 {
            assert(line.subrange(b + 4, line.len() - 1)[k - b - 4] == line[k]);
        } else {
        }
    }
}

/// A line parses to a valid request exactly when it is the envelope around
/// some three texts without a line feed. Any other line (a bracket group
/// missing or out of order, text behind the closing bracket) parses to the
/// invalid request, which holds no field.
pub proof fn lemma_valid_iff_envelope(line: Seq<char>)
    ensures
        parse_line(line).status is Valid <==> exists|
            subject: Seq<char>,
            verb: Seq<char>,
            object: Seq<char>,
        | is_envelope_of(line, subject, verb, object),
        !(parse_line(line).status is Valid) ==> parse_line(line) == invalid_request(),
{
    if is_envelope(line) {
        lemma_envelope_fields(line);
    }
    if exists|subject: Seq<char>, verb: Seq<char>, object: Seq<char>|
        is_envelope_of(line, subject, verb, object) {
        let (subject, verb, object) = choose|
            subject: Seq<char>,
            verb: Seq<char>,
            object: Seq<char>,
        | is_envelope_of(line, subject, verb, object);
        lemma_envelope_is_valid(subject, verb, object);
    }
}

/// A line that lacks a bracket group is malformed: one that does not open
/// with `[1:`, or holds no `][2:`, or holds no `][3:`.
pub proof fn lemma_missing_group_is_invalid(line: Seq<char>)
    requires
        !marker_at(line, subject_marker(), 0) || free_of(line, verb_marker()) || free_of(
            line,
            object_marker(),
        ),
    ensures
        parse_line(line) == invalid_request(),
{
    if has_marker_from(line, verb_marker(), 3) && has_marker_from(
        line,
        object_marker(),
        subject_end(line) + 4,
    ) {
        assert(marker_at(line, verb_marker(), subject_end(line)));
        assert(marker_at(line, object_marker(), verb_end(line)));
    }
}

/// A line whose bracket groups stand in the wrong order is malformed: one
/// with no `][3:` behind its first `][2:`.
pub proof fn lemma_wrong_order_is_invalid(line: Seq<char>)
    requires
        no_marker_from(line, object_marker(), subject_end(line) + 4),
    ensures
        parse_line(line) == invalid_request(),
{
}

/// Text behind the closing bracket makes a line malformed: whatever stands
/// before it, a line that ends with text whose last character is no `]` is
/// no envelope.
pub proof fn lemma_trailing_text_is_invalid(line: Seq<char>, extra: Seq<char>)
    requires
        extra.len() > 0,
        extra.last() != ']',
    ensures
        parse_line(line + extra) == invalid_request(),
{
    assert((line + extra)[(line + extra).len() - 1] == extra.last());
}

/// A line that holds a line feed is malformed.
pub proof fn lemma_line_feed_is_invalid(line: Seq<char>, at: int)
    requires
        0 <= at < line.len(),
        line[at] == '\n',
    ensures
        parse_line(line) == invalid_request(),
{
}

/// In a text that continues with a marker opened by `]`, the marker stands
/// first where the text ends, if the text itself holds none: none can begin
/// in the text and end in the marker.
proof fn lemma_marker_first_behind(line: Seq<char>, marker: Seq<char>, from: int, at: int)
    requires
        0 <= from <= at,
        marker_at(line, marker, at),
        free_of(line.subrange(from, at), marker),
        marker.len() == 4,
        marker[0] == ']',
        marker[1] != ']',
        marker[2] != ']',
        marker[3] != ']',
    ensures
        first_marker_at(line, marker, from, at),
{
    assert(line.subrange(at, at + 4)[0] == line[at]);
    assert forall|m: int| from <= m < at implies !marker_at(line, marker, m) by {
        if marker_at(line, marker, m) {
            if m + 4 <= at {
                assert(line.subrange(from, at).subrange(m - from, m - from + 4) =~= line.subrange(
                    m,
                    m + 4,
                ));
                assert(marker_at(line.subrange(from, at), marker, m - from));
            } else {
                assert(line.subrange(m, m + 4)[at - m] == line[at]);
            }
        }
    }
}

/// The envelope around a subject without `][2:`, a verb text without `][3:`
/// and any object parses to exactly these fields.
pub proof fn lemma_parse_of_envelope(subject: Seq<char>, verb: Seq<char>, object: Seq<char>)
    requires
        no_line_feed(subject),
        no_line_feed(verb),
        no_line_feed(object),
        free_of(subject, verb_marker()),
        free_of(verb, object_marker()),
    ensures
        parse_line(envelope(subject, verb, object)) == (ChatRequestView {
            subject: Some(subject),
            verb: decode_verb(verb),
            object: Some(object),
            status: ChatRequestStatus::Valid,
        }),
{
    lemma_marker_texts();
    lemma_envelope_is_valid(subject, verb, object);
    lemma_envelope_parts(subject, verb, object);
    let line = envelope(subject, verb, object);
    let a = subject.len() as int + 3;
    let b = a + 4 + verb.len() as int;
    lemma_marker_first_behind(line, verb_marker(), 3, a);
    lemma_first_marker_is(line, verb_marker(), 3, a);
    lemma_marker_first_behind(line, object_marker(), a + 4, b);
    lemma_first_marker_is(line, object_marker(), a + 4, b);
}

/// Parsing an envelope line and writing the request out again gives the
/// same bracketed line, with the verb text replaced by the keyword of the
/// verb it stands for, and the line terminator behind it.
pub proof fn lemma_round_trip(line: Seq<char>)
    requires
        is_envelope(line),
    ensures
        line == envelope(subject_text(line), verb_text(line), object_text(line)),
        wire_form(parse_line(line)) == Some(
            envelope(
                subject_text(line),
                verb_keyword(decode_verb(verb_text(line))),
                object_text(line),
            ) + line_terminator(),
        ),
        decode_verb(verb_text(line)) != ChatRequestVerb::NONE ==> wire_form(parse_line(line))
            == Some(line + line_terminator()),
{
    lemma_envelope_fields(line);
}

/// The envelope around a subject without `][2:`, a verb text without `][3:`
/// and any object is written out again as the envelope around the same
/// subject and object, with the keyword of the verb that the verb text
/// stands for.
pub proof fn lemma_round_trip_of_fields(subject: Seq<char>, verb: Seq<char>, object: Seq<char>)
    requires
        no_line_feed(subject),
        no_line_feed(verb),
        no_line_feed(object),
        free_of(subject, verb_marker()),
        free_of(verb, object_marker()),
    ensures
        wire_form(parse_line(envelope(subject, verb, object))) == Some(
            envelope(subject, verb_keyword(decode_verb(verb)), object) + line_terminator(),
        ),
{
    lemma_parse_of_envelope(subject, verb, object);
}

/// No keyword holds a line feed or `][3:`.
proof fn lemma_keywords_are_plain(verb: ChatRequestVerb)
    ensures
        no_line_feed(verb_keyword(verb)),
        free_of(verb_keyword(verb), object_marker()),
{
    let keyword = verb_keyword(verb);
    reveal_strlit("init");
    reveal_strlit("tx");
    reveal_strlit("end");
    reveal_strlit("none");
    lemma_marker_texts();
    assert forall|m: int| 0 <= m implies !marker_at(keyword, object_marker(), m) by {
        if marker_at(keyword, object_marker(), m) {
            assert(keyword.subrange(m, m + 4)[0] == keyword[m]);
        }
    }
}

/// The envelope that a parsed request is written out as parses back to the
/// same request.
pub proof fn lemma_wire_form_parses_back(line: Seq<char>)
    requires
        is_envelope(line),
    ensures
        parse_line(
            envelope(
                subject_text(line),
                verb_keyword(decode_verb(verb_text(line))),
                object_text(line),
            ),
        ) == parse_line(line),
{
    lemma_envelope_fields(line);
    let verb = decode_verb(verb_text(line));
    lemma_keyword_decodes(verb);
    lemma_keywords_are_plain(verb);
    lemma_parse_of_envelope(subject_text(line), verb_keyword(verb), object_text(line));
}

} // verus!
