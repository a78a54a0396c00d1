//! The decisions of the bot, an automated participant.
//!
//! The bot reads the feed. Of each feed line it takes the message, the text
//! between the first `": "` and the next (or the end of the line), and matches
//! it against its wake pattern: `^`, the pattern, any number of spaces, then
//! the rest of the line as the text for the response callback. Whatever the
//! callback returns goes back to the ingest side, one `tx` request per line,
//! under the bot's fixed subject.

use vstd::prelude::*;
use regex::Regex;
use crate::request::{
    envelope, line_terminator, wire_form, ChatRequest, ChatRequestStatus, ChatRequestVerb,
};
use crate::text::{
    chars_of, find_marker, first_marker, has_marker_from, lemma_first_marker_is, lines_of,
};

verus! {

/// The error with which the regex crate refuses a pattern.
#[verifier::external_type_specification]
#[verifier::external_body]
pub struct ExRegexError(regex::Error);

/// What the regex crate finds for a pattern in a haystack: `None` where it
/// refuses the pattern; `Some(None)` where the pattern matches nowhere, or
/// matches without its first capture group taking part; else the text of the
/// first capture group in the leftmost match.
pub uninterp spec fn first_group(pattern: Seq<char>, haystack: Seq<char>) -> Option<
    Option<Seq<char>>,
>;

/// `part` stands somewhere in `whole`, character for character.
pub open spec fn is_part_of(part: Seq<char>, whole: Seq<char>) -> bool {
    exists|i: int, j: int| 0 <= i <= j <= whole.len() && part == #[trigger] whole.subrange(i, j)
}

/// A wake pattern that the regex crate refuses.
#[derive(Debug, Clone, Copy, PartialEq, Eq, Structural)]
pub struct BadPattern;

/// An outcome of a search, as `first_group` gives it.
pub open spec fn search_view<E>(outcome: Result<Option<String>, E>) -> Option<Option<Seq<char>>> {
    match outcome {
        Ok(Some(text)) => Some(Some(text@)),
        Ok(None) => Some(None),
        Err(_) => None,
    }
}

/// Compiles `pattern` with `regex::Regex::new` and searches `haystack` with
/// `Regex::captures`, taking the first capture group with `Captures::get`
/// and its text with `Match::as_str`.
/// Trusted: the outcome is the one value that the regex crate assigns to this
/// pattern and this haystack, which `first_group` names, since compiling and
/// searching depend on nothing but the two texts; and the text of a group is
/// a part of the haystack.
#[verifier::external_body]
fn search_first_group(pattern: &str, haystack: &str) -> (found: Result<
    Option<String>,
    regex::Error,
>)
    ensures
        search_view(found) == first_group(pattern@, haystack@),
        found matches Ok(Some(text)) ==> is_part_of(text@, haystack@),
{
    let regex = Regex::new(pattern)?;
    match regex.captures(haystack) {
        Some(groups) => match groups.get(1) {
            Some(group) => Ok(Some(group.as_str().to_string())),
            None => Ok(None),
        },
        None => Ok(None),
    }
}

/// The text of a feed line that the bot matches: what stands between the
/// first `": "` and the next one, or the end of the line; empty where the
/// line holds no `": "`.
pub open spec fn message_text(line: Seq<char>) -> Seq<char> {
    if has_marker_from(line, ": "@, 0) {
        let start = first_marker(line, ": "@, 0) + 2;
        let end = if has_marker_from(line, ": "@, start) {
            first_marker(line, ": "@, start)
        } else {
            line.len() as int
        };
        line.subrange(start, end)
    } else {
        Seq::empty()
    }
}

/// The regular expression that a wake pattern stands for.
pub open spec fn wake_regex_text(wake_pattern: Seq<char>) -> Seq<char> {
    "^"@ + wake_pattern + " *(.*)$"@
}

/// The subject under which the bot writes.
pub open spec fn bot_subject() -> Seq<char> {
    "Bot"@
}

/// The wire form of one line of a response.
pub open spec fn reply_wire(line: Seq<char>) -> Seq<char> {
    envelope(bot_subject(), "tx"@, line) + line_terminator()
}

/// The message of a feed line.
pub fn message_of(line: &str) -> (message: String)
    ensures
        message@ == message_text(line@),
{
    let chars = chars_of(line);
    let length: usize = chars.len();
    let separator = chars_of(": ");
    proof {
        reveal_strlit(": ");
    }
    match find_marker(&chars, &separator, 0) {
        None => String::new(),
        Some(first) => {
            proof {
                lemma_first_marker_is(chars@, ": "@, 0, first as int);
            }
            let start: usize = first + 2;
            let end: usize = match find_marker(&chars, &separator, start) {
                Some(next) => {
                    proof {
                        lemma_first_marker_is(chars@, ": "@, start as int, next as int);
                    }
                    next
                },
                None => length,
            };
            line.substring_char(start, end).to_owned()
        },
    }
}

/// The regular expression that a wake pattern stands for.
pub fn wake_regex(wake_pattern: &str) -> (pattern: String)
    ensures
        pattern@ == wake_regex_text(wake_pattern@),
{
    let mut pattern = String::from_str("^");
    pattern.append(wake_pattern);
    pattern.append(" *(.*)$");
    pattern
}

/// What a search outcome means for the bot: the text for the callback, no
/// wake, or a pattern that cannot be used.
pub fn wake_outcome(found: Result<Option<String>, regex::Error>) -> (outcome: Result<
    Option<String>,
    BadPattern,
>)
    ensures
        outcome is Err <==> found is Err,
        found matches Ok(text) ==> outcome == Ok::<Option<String>, BadPattern>(text),
        search_view(outcome) == search_view(found),
{
    match found {
        Ok(text) => Ok(text),
        Err(_) => Err(BadPattern),
    }
}

/// The texts that wake the bot among `lines`, in order.
pub open spec fn wake_texts(wake_pattern: Seq<char>, lines: Seq<Seq<char>>) -> Seq<Seq<char>>
    decreases lines.len(),
{
    if lines.len() == 0 {
        Seq::empty()
    } else {
        let earlier = wake_texts(wake_pattern, lines.drop_last());
        match first_group(wake_regex_text(wake_pattern), message_text(lines.last())) {
            Some(Some(text)) => earlier.push(text),
            _ => earlier,
        }
    }
}

/// The bot's state: its wake pattern.
pub struct Bot {
    wake_pattern: String,
}

impl View for Bot {
    type V = Seq<char>;

    closed spec fn view(&self) -> Seq<char> {
        self.wake_pattern@
    }
}

impl Bot {
    pub fn new(wake_pattern: String) -> (bot: Bot)
        ensures
            bot@ == wake_pattern@,
    {
        Bot { wake_pattern }
    }

    /// Decides on one feed line: `Ok(Some(text))` where the line wakes the
    /// bot, with the text for the callback; `Ok(None)` where it does not.
    /// The text is a part of the message of the line.
    pub fn wake(&self, line: &str) -> (outcome: Result<Option<String>, BadPattern>)
        ensures
            search_view(outcome) == first_group(wake_regex_text(self@), message_text(line@)),
            outcome matches Ok(Some(text)) ==> is_part_of(text@, message_text(line@)),
    {
        let message = message_of(line);
        let pattern = wake_regex(self.wake_pattern.as_str());
        wake_outcome(search_first_group(pattern.as_str(), message.as_str()))
    }

    /// The texts for the callback that a run of feed lines gives, in order.
    /// Lines that do not wake the bot are passed over, and so is every line
    /// where the wake pattern cannot be used.
    pub fn listen_on(&self, lines: &Vec<String>) -> (texts: Vec<String>)
        ensures
            lines_of(texts@) == wake_texts(self@, lines_of(lines@)),
    {
        let mut texts: Vec<String> = Vec::new();
        let mut k: usize = 0;
        while k < lines.len()
            invariant
                k <= lines@.len(),
                lines_of(texts@) == wake_texts(self@, lines_of(lines@).take(k as int)),
            decreases lines.len() - k,
        {
            let ghost before = lines_of(texts@);
            assert(lines_of(lines@).take(k + 1).drop_last() =~= lines_of(lines@).take(k as int));
            match self.wake(lines[k].as_str()) {
                Ok(Some(text)) => {
                    texts.push(text);
                    assert(lines_of(texts@) =~= before.push(text@));
                },
                _ => {},
            }
            k += 1;
        }
        assert(lines_of(lines@).take(k as int) =~= lines_of(lines@));
        texts
    }
}

/// The requests that carry a response back to the ingest side: one `tx`
/// request from the bot's subject for each line, in wire form.
pub fn reply_requests(lines: &Vec<String>) -> (wires: Vec<String>)
    ensures
        wires@.len() == lines@.len(),
        forall|i: int| 0 <= i < lines@.len() ==> (#[trigger] wires@[i])@ == reply_wire(lines@[i]@),
{
    let mut wires: Vec<String> = Vec::new();
    let mut k: usize = 0;
    while k < lines.len()
        invariant
            k <= lines@.len(),
            wires@.len() == k,
            forall|i: int| 0 <= i < k ==> (#[trigger] wires@[i])@ == reply_wire(lines@[i]@),
        decreases lines.len() - k,
    {
        let request = ChatRequest {
            subject: Some("Bot".to_owned()),
            verb: ChatRequestVerb::TX,
            object: Some(lines[k].clone()),
            status: ChatRequestStatus::Valid,
        };
        let wire = request.to_string_opt();
        assert(wire_form(request@) == Some(reply_wire(lines@[k as int]@)));
        wires.push(wire.unwrap());
        k += 1;
    }
    wires
}

} // verus!
