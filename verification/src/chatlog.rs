//! The shared chat log and the cursors that tail it.
//!
//! The log is an append-only sequence of rendered lines. One writer appends
//! the line of each request that reaches it, in arrival order. Every feed
//! connection owns a cursor, the index of the first entry it was not sent
//! yet; a poll hands it the entries from there to the end of the log as one
//! text, each entry followed by a line feed.

use vstd::prelude::*;
use crate::request::{log_line, ChatRequest};
use crate::text::lines_of;

verus! {

/// The chat history: rendered lines in the order in which they were appended.
pub struct InMemoryChatBuffer {
    text: Vec<String>,
}

/// The log lines of a sequence of requests, in order.
pub open spec fn rendered(requests: Seq<ChatRequest>) -> Seq<Seq<char>> {
    Seq::new(requests.len(), |i: int| log_line(requests[i]@))
}

/// Every request of the sequence is valid.
pub open spec fn all_valid(requests: Seq<ChatRequest>) -> bool {
    forall|i: int| 0 <= i < requests.len() ==> (#[trigger] requests[i]).status is Valid
}

/// The entries `from..to` of a log as one text, each entry followed by a
/// line feed: the entries joined by line feeds, and one line feed at the end.
pub open spec fn batch_text(log: Seq<Seq<char>>, from: int, to: int) -> Seq<char>
    decreases to - from,
{
    if 0 <= from < to <= log.len() {
        batch_text(log, from, to - 1) + log[to - 1] + "\n"@
    } else {
        Seq::empty()
    }
}

impl View for InMemoryChatBuffer {
    type V = Seq<Seq<char>>;

    closed spec fn view(&self) -> Seq<Seq<char>> {
        lines_of(self.text@)
    }
}

impl InMemoryChatBuffer {
    /// An empty log.
    pub fn new() -> (buffer: InMemoryChatBuffer)
        ensures
            buffer@ == Seq::<Seq<char>>::empty(),
    {
        let buffer = InMemoryChatBuffer { text: Vec::new() };
        assert(buffer@ =~= Seq::<Seq<char>>::empty());
        buffer
    }

    /// The number of entries.
    pub fn len(&self) -> (count: usize)
        ensures
            count == self@.len(),
    {
        self.text.len()
    }

    /// The entries, oldest first.
    pub fn lines(&self) -> (lines: &Vec<String>)
        ensures
            lines_of(lines@) == self@,
    {
        &self.text
    }

    /// Appends the log line of one request that reached the writer. Nothing
    /// that the log held before moves or changes.
    pub fn record(&mut self, request: &ChatRequest)
        requires
            request.status is Valid,
        ensures
            final(self)@ == old(self)@.push(log_line(request@)),
            final(self)@.len() == old(self)@.len() + 1,
            forall|i: int| 0 <= i < old(self)@.len() ==> final(self)@[i] == old(self)@[i],
    {
        let line = request.to_log();
        self.text.push(line);
        assert(self@ =~= old(self)@.push(log_line(request@)));
    }

    /// Appends the log lines of the requests that reached the writer, first
    /// come first appended.
    pub fn listen_for_updates(&mut self, requests: &Vec<ChatRequest>)
        requires
            all_valid(requests@),
        ensures
            final(self)@ == old(self)@ + rendered(requests@),
            final(self)@.len() == old(self)@.len() + requests@.len(),
            forall|i: int| 0 <= i < old(self)@.len() ==> final(self)@[i] == old(self)@[i],
    {
        let mut k: usize = 0;
        while k < requests.len()
            invariant
                k <= requests.len(),
                all_valid(requests@),
                self@ == old(self)@ + rendered(requests@.take(k as int)),
            decreases requests.len() - k,
        {
            self.record(&requests[k]);
            assert(self@ =~= old(self)@ + rendered(requests@.take(k + 1))) by {
                assert(rendered(requests@.take(k + 1)) =~= rendered(requests@.take(k as int)).push(
                    log_line(requests@[k as int]@),
                ));
            }
            k += 1;
        }
        assert(requests@.take(k as int) =~= requests@);
    }
}

/// The log after the writer received `requests` holds one entry more for
/// each of them, and every earlier entry where and as it was. From an empty
/// log its length is the number of requests.
pub proof fn lemma_log_only_grows(log: Seq<Seq<char>>, requests: Seq<ChatRequest>)
    ensures
        (log + rendered(requests)).len() == log.len() + requests.len(),
        forall|i: int| 0 <= i < log.len() ==> (log + rendered(requests))[i] == log[i],
        forall|i: int|
            0 <= i < requests.len() ==> (log + rendered(requests))[log.len() + i] == log_line(
                requests[i]@,
            ),
        (Seq::<Seq<char>>::empty() + rendered(requests)).len() == requests.len(),
{
}

/// The index of the first log entry that a feed connection was not sent yet.
pub struct TailCursor {
    start_from: usize,
}

/// What one poll found: the text to write, and the log length it reaches.
pub struct Batch {
    pub text: String,
    pub end_at: usize,
}

/// One poll of a tailer at `cursor`, as the cursor behind it and the text it
/// emits: with entries behind the cursor, all of them and the cursor at the
/// end of the log; without, nothing and the cursor where it was.
pub open spec fn tail_step(log: Seq<Seq<char>>, cursor: nat) -> (nat, Option<Seq<char>>) {
    if cursor < log.len() {
        (log.len(), Some(batch_text(log, cursor as int, log.len() as int)))
    } else {
        (cursor, None)
    }
}

impl View for TailCursor {
    type V = nat;

    closed spec fn view(&self) -> nat {
        self.start_from as nat
    }
}

impl TailCursor {
    /// The cursor of a connection that was just accepted: nothing was sent.
    pub fn new() -> (cursor: TailCursor)
        ensures
            cursor@ == 0,
    {
        TailCursor { start_from: 0 }
    }

    /// The index of the first entry not sent yet.
    pub fn start_from(&self) -> (index: usize)
        ensures
            index == self@,
    {
        self.start_from
    }

    /// What to write to the connection now: the entries behind the cursor,
    /// or nothing where there is none.
    pub fn poll(&self, log: &InMemoryChatBuffer) -> (batch: Option<Batch>)
        ensures
            batch is Some <==> self@ < log@.len(),
            match batch {
                Some(found) => tail_step(log@, self@) == (found.end_at as nat, Some(found.text@)),
                None => tail_step(log@, self@) == (self@, None::<Seq<char>>),
            },
    {
        let end_at = log.text.len();
        if self.start_from >= end_at {
            return None;
        }
        let mut text = String::new();
        let mut k: usize = self.start_from;
        while k < end_at
            invariant
                self.start_from <= k <= end_at,
                end_at == log.text@.len(),
                text@ == batch_text(log@, self.start_from as int, k as int),
            decreases end_at - k,
        {
            text.append(log.text[k].as_str());
            text.append("\n");
            k += 1;
        }
        Some(Batch { text, end_at })
    }

    /// Moves the cursor behind a batch that was written. It never moves back.
    pub fn written(&mut self, batch: &Batch)
        ensures
            final(self)@ == if batch.end_at > old(self)@ {
                batch.end_at as nat
            } else {
                old(self)@
            },
    {
        if batch.end_at > self.start_from {
            self.start_from = batch.end_at;
        }
    }
}

/// The largest of a cursor and the log lengths that its polls saw.
pub open spec fn furthest(start: nat, seen: Seq<nat>) -> nat
    decreases seen.len(),
{
    if seen.len() == 0 {
        start
    } else {
        let before = furthest(start, seen.drop_last());
        if seen.last() > before {
            seen.last()
        } else {
            before
        }
    }
}

/// A tailer that starts at `start` and polls each time the log holds
/// `seen[0]`, `seen[1]`, ... entries: the cursor it ends with, and all the
/// text it emitted, in order.
pub open spec fn tail_run(log: Seq<Seq<char>>, start: nat, seen: Seq<nat>) -> (nat, Seq<char>)
    decreases seen.len(),
{
    if seen.len() == 0 {
        (start, Seq::empty())
    } else {
        let (cursor, text) = tail_run(log, start, seen.drop_last());
        let (next, emitted) = tail_step(log.take(seen.last() as int), cursor);
        (
            next,
            match emitted {
                Some(batch) => text + batch,
                None => text,
            },
        )
    }
}

/// The text of a range of entries does not depend on what the log holds
/// behind the range.
pub proof fn lemma_batch_of_prefix(log: Seq<Seq<char>>, len: int, from: int, to: int)
    requires
        0 <= to <= len <= log.len(),
    ensures
        batch_text(log.take(len), from, to) == batch_text(log, from, to),
    decreases to - from,
{
    if 0 <= from < to {
        lemma_batch_of_prefix(log, len, from, to - 1);
    }
}

/// Two ranges that meet give the text of the range that spans them.
pub proof fn lemma_batches_join(log: Seq<Seq<char>>, from: int, mid: int, to: int)
    requires
        0 <= from <= mid <= to <= log.len(),
    ensures
        batch_text(log, from, mid) + batch_text(log, mid, to) == batch_text(log, from, to),
    decreases to - mid,
{
    if mid < to {
        lemma_batches_join(log, from, mid, to - 1);
        assert(batch_text(log, from, mid) + (batch_text(log, mid, to - 1) + log[to - 1] + "\n"@)
            =~= (batch_text(log, from, mid) + batch_text(log, mid, to - 1)) + log[to - 1] + "\n"@);
    } else {
        assert(batch_text(log, from, mid) + batch_text(log, mid, to) =~= batch_text(
            log,
            from,
            to,
        ));
    }
}

/// A poll that finds no entry behind the cursor emits nothing and leaves
/// the cursor where it was, however often it is repeated.
pub proof fn lemma_idle_polls(log: Seq<Seq<char>>, start: nat, seen: Seq<nat>)
    requires
        forall|i: int| 0 <= i < seen.len() ==> seen[i] <= start && seen[i] <= log.len(),
    ensures
        start >= log.len() ==> tail_step(log, start) == (start, None::<Seq<char>>),
        tail_run(log, start, seen) == (start, Seq::<char>::empty()),
    decreases seen.len(),
{
    if seen.len() > 0 {
        lemma_idle_polls(log, start, seen.drop_last());
    }
}

/// Whenever a tailer polls, and however often, it has been sent exactly the
/// entries from where it started to the furthest log length it saw: each of
/// them once, in log order, none left out.
pub proof fn lemma_tail_run(log: Seq<Seq<char>>, start: nat, seen: Seq<nat>)
    requires
        start <= log.len(),
        forall|i: int| 0 <= i < seen.len() ==> seen[i] <= log.len(),
    ensures
        start <= furthest(start, seen) <= log.len(),
        tail_run(log, start, seen) == (
            furthest(start, seen),
            batch_text(log, start as int, furthest(start, seen) as int),
        ),
    decreases seen.len(),
{
    if seen.len() > 0 {
        let earlier = seen.drop_last();
        lemma_tail_run(log, start, earlier);
        let cursor = furthest(start, earlier);
        let len = seen.last();
        if cursor < len {
            lemma_batch_of_prefix(log, len as int, cursor as int, len as int);
            lemma_batches_join(log, start as int, cursor as int, len as int);
        }
    }
}

/// Two tailers of one log, attached at different points and polling at
/// times of their own, are each sent the entries from their own starting
/// point on: what one of them does changes nothing for the other.
pub proof fn lemma_fan_out(
    log: Seq<Seq<char>>,
    first_start: nat,
    first_seen: Seq<nat>,
    second_start: nat,
    second_seen: Seq<nat>,
)
    requires
        first_start <= log.len(),
        second_start <= log.len(),
        forall|i: int| 0 <= i < first_seen.len() ==> first_seen[i] <= log.len(),
        forall|i: int| 0 <= i < second_seen.len() ==> second_seen[i] <= log.len(),
    ensures
        tail_run(log, first_start, first_seen).1 == batch_text(
            log,
            first_start as int,
            furthest(first_start, first_seen) as int,
        ),
        tail_run(log, second_start, second_seen).1 == batch_text(
            log,
            second_start as int,
            furthest(second_start, second_seen) as int,
        ),
        first_seen.len() > 0 && first_seen.last() == log.len() ==> tail_run(
            log,
            first_start,
            first_seen,
        ).1 == batch_text(log, first_start as int, log.len() as int),
        second_seen.len() > 0 && second_seen.last() == log.len() ==> tail_run(
            log,
            second_start,
            second_seen,
        ).1 == batch_text(log, second_start as int, log.len() as int),
{
    lemma_tail_run(log, first_start, first_seen);
    lemma_tail_run(log, second_start, second_seen);
}

} // verus!
