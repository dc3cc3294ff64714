//! The streaming transcoder: backend event-stream bytes in, native records out.
//!
//! Bytes are split into lines across chunk boundaries; each complete line is
//! read on its own, and the first `[DONE]` sentinel ends the stream.

use crate::clock::now_rfc3339;
use crate::json::{first_element, get_first, get_member, json_of, member, parse_json, text_of, JsonValue};
use crate::schema::{is_content_record, is_stream_terminal, to_native_chunk, to_terminal_chunk, ChatRecord};
use crate::text::{decode_text, same_text, trim_text, trimmed};
use vstd::prelude::*;
use vstd::utf8::{decode_utf8, valid_utf8};

verus! {

/// The byte that ends a line.
pub const NEWLINE: u8 = 10;

/// The bytes of `data: `, the optional prefix of an event line.
pub open spec fn data_prefix() -> Seq<u8> {
    seq![100u8, 97u8, 116u8, 97u8, 58u8, 32u8]
}

/// A line without its `data: ` prefix, where it has one.
pub open spec fn payload(line: Seq<u8>) -> Seq<u8> {
    if line.len() >= 6 && line.subrange(0, 6) == data_prefix() {
        line.subrange(6, line.len() as int)
    } else {
        line
    }
}

/// The text of a line's payload; empty where it is not valid UTF-8.
pub open spec fn line_text(line: Seq<u8>) -> Seq<char> {
    if valid_utf8(payload(line)) {
        decode_utf8(payload(line))
    } else {
        Seq::empty()
    }
}

/// The string at `choices[0].delta.content` of a backend event, if any.
pub open spec fn delta_content(v: JsonValue) -> Option<Seq<char>> {
    match member(v, "choices"@) {
        Some(choices) => match first_element(choices) {
            Some(choice) => match member(choice, "delta"@) {
                Some(delta) => match member(delta, "content"@) {
                    Some(content) => text_of(content),
                    None => None,
                },
                None => None,
            },
            None => None,
        },
        None => None,
    }
}

/// What one line of the backend's stream yields: nothing (`None`), the
/// terminal event (`Some(None)`), or a non-empty content delta
/// (`Some(Some(c))`).
pub open spec fn line_event(line: Seq<u8>) -> Option<Option<Seq<char>>> {
    let text = line_text(line);
    if text.len() == 0 {
        None
    } else if trimmed(text) == "[DONE]"@ {
        Some(None)
    } else {
        match json_of(text) {
            Some(v) => match delta_content(v) {
                Some(c) => if c.len() > 0 {
                    Some(Some(c))
                } else {
                    None
                },
                None => None,
            },
            None => None,
        }
    }
}

/// The lines of `b` that a newline has ended.
pub open spec fn complete_lines(b: Seq<u8>) -> Seq<Seq<u8>>
    decreases b.len(),
{
    if b.len() == 0 {
        Seq::empty()
    } else if b.last() == NEWLINE {
        complete_lines(b.drop_last()).push(partial_line(b.drop_last()))
    } else {
        complete_lines(b.drop_last())
    }
}

/// The bytes of `b` after its last newline.
pub open spec fn partial_line(b: Seq<u8>) -> Seq<u8>
    decreases b.len(),
{
    if b.len() == 0 {
        Seq::empty()
    } else if b.last() == NEWLINE {
        Seq::empty()
    } else {
        partial_line(b.drop_last()).push(b.last())
    }
}

/// A sequence of events that the terminal event has closed.
pub open spec fn is_terminated(events: Seq<Option<Seq<char>>>) -> bool {
    events.len() > 0 && events.last() is None
}

/// The events that a sequence of lines yields, in order, up to and including
/// the first terminal event.
pub open spec fn stream_events(lines: Seq<Seq<u8>>) -> Seq<Option<Seq<char>>>
    decreases lines.len(),
{
    if lines.len() == 0 {
        Seq::empty()
    } else {
        let before = stream_events(lines.drop_last());
        if is_terminated(before) {
            before
        } else {
            match line_event(lines.last()) {
                Some(e) => before.push(e),
                None => before,
            }
        }
    }
}

/// The events owed once the bytes `b` have arrived.
pub open spec fn events_so_far(b: Seq<u8>) -> Seq<Option<Seq<char>>> {
    stream_events(complete_lines(b))
}

/// The events of a whole stream of bytes `b`: a last line without a newline
/// counts too.
pub open spec fn events_at_end(b: Seq<u8>) -> Seq<Option<Seq<char>>> {
    stream_events(complete_lines(b).push(partial_line(b)))
}

/// One event of the transcoded stream.
#[derive(Debug)]
pub enum StreamEvent {
    Delta(String),
    Terminal,
}

impl View for StreamEvent {
    type V = Option<Seq<char>>;

    open spec fn view(&self) -> Option<Seq<char>> {
        match self {
            StreamEvent::Delta(c) => Some(c@),
            StreamEvent::Terminal => None,
        }
    }
}

pub open spec fn events_view(events: Seq<StreamEvent>) -> Seq<Option<Seq<char>>> {
    events.map_values(|e: StreamEvent| e@)
}

/// Whether a line starts with `data: `.
fn has_data_prefix(line: &[u8]) -> (r: bool)
    ensures
        r == (line@.len() >= 6 && line@.subrange(0, 6) == data_prefix()),
{
    if line.len() < 6 {
        return false;
    }
    let r = line[0] == 100u8 && line[1] == 97u8 && line[2] == 116u8 && line[3] == 97u8
        && line[4] == 58u8 && line[5] == 32u8;
    assert(r == (line@.subrange(0, 6) =~= data_prefix()));
    r
}

/// The string at `choices[0].delta.content` of a parsed backend event.
pub fn delta_text(v: &JsonValue) -> (r: Option<&String>)
    ensures
        r is Some <==> delta_content(*v) is Some,
        r is Some ==> r->0@ == delta_content(*v)->0,
{
    let choices = match get_member(v, "choices") {
        Some(c) => c,
        None => return None,
    };
    let choice = match get_first(choices) {
        Some(c) => c,
        None => return None,
    };
    let delta = match get_member(choice, "delta") {
        Some(d) => d,
        None => return None,
    };
    match get_member(delta, "content") {
        Some(JsonValue::Str(s)) => Some(s),
        _ => None,
    }
}

/// Reads one complete line of the backend's stream.
pub fn classify_line(line: &[u8]) -> (r: Option<StreamEvent>)
    ensures
        r is None <==> line_event(line@) is None,
        r is Some ==> r->0@ == line_event(line@)->0,
{
    let body: &[u8] = if has_data_prefix(line) {
        &line[6..line.len()]
    } else {
        line
    };
    assert(body@ == payload(line@));
    let text = match decode_text(body) {
        Some(t) => t,
        None => return None,
    };
    if text.as_str().is_empty() {
        return None;
    }
    if same_text(trim_text(text.as_str()), "[DONE]") {
        return Some(StreamEvent::Terminal);
    }
    let value = match parse_json(text.as_str()) {
        Some(v) => v,
        None => return None,
    };
    match delta_text(&value) {
        Some(c) => if c.as_str().is_empty() {
            None
        } else {
            Some(StreamEvent::Delta(c.clone()))
        },
        None => None,
    }
}

/// Appending a byte extends the complete lines by the partial line exactly
/// when the byte is a newline.
proof fn lemma_push_byte(b: Seq<u8>, x: u8)
    ensures
        x == NEWLINE ==> complete_lines(b.push(x)) == complete_lines(b).push(partial_line(b)),
        x == NEWLINE ==> partial_line(b.push(x)) == Seq::<u8>::empty(),
        x != NEWLINE ==> complete_lines(b.push(x)) == complete_lines(b),
        x != NEWLINE ==> partial_line(b.push(x)) == partial_line(b).push(x),
{
    assert(b.push(x).drop_last() =~= b);
}

/// Appending a line to a stream extends its events by what the line yields,
/// unless the stream is already closed.
proof fn lemma_push_line(lines: Seq<Seq<u8>>, line: Seq<u8>)
    ensures
        stream_events(lines.push(line)) == if is_terminated(stream_events(lines)) {
            stream_events(lines)
        } else {
            match line_event(line) {
                Some(e) => stream_events(lines).push(e),
                None => stream_events(lines),
            }
        },
{
    assert(lines.push(line).drop_last() =~= lines);
}

/// `r` is the native record for the event `e` on `model`, whatever its
/// timestamp.
pub open spec fn record_of_event(r: ChatRecord, e: Option<Seq<char>>, model: Seq<char>) -> bool {
    match e {
        Some(c) => is_content_record(r, c, model),
        None => is_stream_terminal(r, model),
    }
}

/// `records` are the native records of `events` on `model`, one for one.
pub open spec fn records_of(
    records: Seq<ChatRecord>,
    events: Seq<Option<Seq<char>>>,
    model: Seq<char>,
) -> bool {
    &&& records.len() == events.len()
    &&& forall|i: int| 0 <= i < records.len() ==> record_of_event(#[trigger] records[i], events[i], model)
}

/// The native record of one event.
pub fn record_for(event: &StreamEvent, model: String, created_at: String) -> (r: ChatRecord)
    ensures
        record_of_event(r, event@, model@),
        r.created_at == created_at,
{
    match event {
        StreamEvent::Delta(c) => to_native_chunk(c.clone(), model, created_at),
        StreamEvent::Terminal => to_terminal_chunk(model, created_at),
    }
}

/// The native records of `events`, each stamped with the time it was made.
pub fn records_for(events: &Vec<StreamEvent>, model: &String) -> (r: Vec<ChatRecord>)
    ensures
        records_of(r@, events_view(events@), model@),
{
    let mut r: Vec<ChatRecord> = Vec::new();
    let mut i: usize = 0;
    while i < events.len()
        invariant
            0 <= i <= events@.len(),
            r@.len() == i,
            forall|j: int| 0 <= j < i ==> record_of_event(#[trigger] r@[j], events@[j]@, model@),
        decreases events@.len() - i,
    {
        let record = record_for(&events[i], model.clone(), now_rfc3339());
        r.push(record);
        i = i + 1;
    }
    r
}

/// The per-request state of the streaming transcoder: the line read so far
/// and whether the sentinel has closed the stream.
pub struct Transcoder {
    model: String,
    pending: Vec<u8>,
    terminated: bool,
    received: Ghost<Seq<u8>>,
}

impl Transcoder {
    /// The bytes handed to this transcoder so far.
    pub closed spec fn bytes_received(&self) -> Seq<u8> {
        self.received@
    }

    /// The model that records are issued for.
    pub closed spec fn model(&self) -> Seq<char> {
        self.model@
    }

    pub closed spec fn wf(&self) -> bool {
        &&& self.terminated == is_terminated(events_so_far(self.received@))
        &&& !self.terminated ==> self.pending@ == partial_line(self.received@)
    }

    /// A transcoder for one request on `model`, before any byte.
    pub fn new(model: String) -> (r: Self)
        ensures
            r.wf(),
            r.bytes_received() == Seq::<u8>::empty(),
            r.model() == model@,
    {
        Transcoder { model, pending: Vec::new(), terminated: false, received: Ghost(Seq::empty()) }
    }

    /// Whether the sentinel has closed the stream.
    pub fn is_terminated(&self) -> (r: bool)
        requires
            self.wf(),
        ensures
            r == is_terminated(events_so_far(self.bytes_received())),
    {
        self.terminated
    }

    /// Takes the next chunk of the backend's stream and returns the events
    /// that the lines it completes yield.
    pub fn push_chunk(&mut self, chunk: &[u8]) -> (out: Vec<StreamEvent>)
        requires
            old(self).wf(),
        ensures
            final(self).wf(),
            final(self).bytes_received() == old(self).bytes_received() + chunk@,
            final(self).model() == old(self).model(),
            events_so_far(old(self).bytes_received()) + events_view(out@) == events_so_far(
                final(self).bytes_received(),
            ),
    {
        let ghost start = self.received@;
        let mut out: Vec<StreamEvent> = Vec::new();
        let mut i: usize = 0;
        assert(events_so_far(start) + events_view(out@) =~= events_so_far(start));
        assert(start + chunk@.subrange(0, 0) =~= start);
        while i < chunk.len()
            invariant
                self.wf(),
                0 <= i <= chunk@.len(),
                self.received@ == start + chunk@.subrange(0, i as int),
                self.model@ == old(self).model@,
                start == old(self).received@,
                events_so_far(start) + events_view(out@) == events_so_far(self.received@),
            decreases chunk@.len() - i,
        {
            let b = chunk[i];
            let ghost before = self.received@;
            proof {
                lemma_push_byte(before, b);
                assert(start + chunk@.subrange(0, i + 1) =~= before.push(b));
            }
            if self.terminated {
                proof {
                    if b == NEWLINE {
                        lemma_push_line(complete_lines(before), partial_line(before));
                    }
                }
            } else if b == NEWLINE {
                let ghost prior = out@;
                proof {
                    lemma_push_line(complete_lines(before), partial_line(before));
                }
                match classify_line(self.pending.as_slice()) {
                    Some(e) => {
                        self.terminated = match e {
                            StreamEvent::Terminal => true,
                            StreamEvent::Delta(_) => false,
                        };
                        out.push(e);
                        assert(events_view(out@) =~= events_view(prior).push(out@.last()@));
                    },
                    None => {},
                }
                self.pending.clear();
            } else {
                self.pending.push(b);
            }
            self.received = Ghost(before.push(b));
            i = i + 1;
        }
        assert(chunk@.subrange(0, chunk@.len() as int) =~= chunk@);
        out
    }

    /// Takes the next chunk of the backend's stream and returns the native
    /// records of the events that it completes.
    pub fn feed(&mut self, chunk: &[u8]) -> (out: Vec<ChatRecord>)
        requires
            old(self).wf(),
        ensures
            final(self).wf(),
            final(self).bytes_received() == old(self).bytes_received() + chunk@,
            final(self).model() == old(self).model(),
            records_of(
                out@,
                events_so_far(final(self).bytes_received()).skip(
                    events_so_far(old(self).bytes_received()).len() as int,
                ),
                old(self).model(),
            ),
    {
        let events = self.push_chunk(chunk);
        let ghost prior = events_so_far(old(self).received@);
        assert(events_so_far(self.received@).skip(prior.len() as int) =~= events_view(events@));
        records_for(&events, &self.model)
    }

    /// Ends the stream and returns the native records of what the last
    /// line yields.
    pub fn finish_records(self) -> (out: Vec<ChatRecord>)
        requires
            self.wf(),
        ensures
            records_of(
                out@,
                events_at_end(self.bytes_received()).skip(
                    events_so_far(self.bytes_received()).len() as int,
                ),
                self.model(),
            ),
    {
        let ghost b = self.received@;
        let model = self.model.clone();
        let events = self.finish();
        assert(events_at_end(b).skip(events_so_far(b).len() as int) =~= events_view(events@));
        records_for(&events, &model)
    }

    /// Ends the stream: the last line, if no newline ended it, is read too.
    /// No terminal event is added where the backend sent no sentinel.
    pub fn finish(self) -> (out: Vec<StreamEvent>)
        requires
            self.wf(),
        ensures
            events_so_far(self.bytes_received()) + events_view(out@) == events_at_end(
                self.bytes_received(),
            ),
    {
        let ghost b = self.received@;
        proof {
            lemma_push_line(complete_lines(b), partial_line(b));
        }
        let mut out: Vec<StreamEvent> = Vec::new();
        if !self.terminated {
            match classify_line(self.pending.as_slice()) {
                Some(e) => out.push(e),
                None => {},
            }
        }
        assert(events_so_far(b) + events_view(out@) =~= events_at_end(b));
        out
    }
}

/// The number of lines that yield a content delta.
pub open spec fn delta_count(lines: Seq<Seq<u8>>) -> nat
    decreases lines.len(),
{
    if lines.len() == 0 {
        0
    } else {
        delta_count(lines.drop_last()) + if line_event(lines.last()) matches Some(Some(_)) {
            1nat
        } else {
            0nat
        }
    }
}

/// Lines without a sentinel yield one delta event per line with non-empty
/// content, and leave the stream open.
proof fn lemma_open_stream(lines: Seq<Seq<u8>>)
    requires
        forall|i: int| 0 <= i < lines.len() ==> line_event(#[trigger] lines[i]) != Some(None::<Seq<char>>),
    ensures
        stream_events(lines).len() == delta_count(lines),
        forall|i: int| 0 <= i < stream_events(lines).len() ==> (#[trigger] stream_events(lines)[i]) is Some,
    decreases lines.len(),
{
    if lines.len() > 0 {
        let rest = lines.drop_last();
        assert forall|i: int| 0 <= i < rest.len() implies line_event(#[trigger] rest[i]) != Some(None::<Seq<char>>) by {
            assert(rest[i] == lines[i]);
        }
        lemma_open_stream(rest);
        assert(line_event(lines[lines.len() - 1]) != Some(None::<Seq<char>>));
    }
}

/// A stream whose lines hold no sentinel until one sentinel line yields one
/// event per non-empty content delta, then the terminal event, last.
pub proof fn lemma_sentinel_closes_stream(lines: Seq<Seq<u8>>, done: Seq<u8>)
    requires
        forall|i: int| 0 <= i < lines.len() ==> line_event(#[trigger] lines[i]) != Some(None::<Seq<char>>),
        line_event(done) == Some(None::<Seq<char>>),
    ensures
        stream_events(lines.push(done)).len() == delta_count(lines) + 1,
        stream_events(lines.push(done)).last() is None,
        forall|i: int| 0 <= i < delta_count(lines) ==> (#[trigger] stream_events(lines.push(done))[i]) is Some,
{
    lemma_open_stream(lines);
    lemma_push_line(lines, done);
}

/// A line that holds no newline byte.
pub open spec fn no_newline(line: Seq<u8>) -> bool {
    forall|i: int| 0 <= i < line.len() ==> line[i] != NEWLINE
}

/// The bytes of `lines`, each ended by a newline.
pub open spec fn joined(lines: Seq<Seq<u8>>) -> Seq<u8>
    decreases lines.len(),
{
    if lines.len() == 0 {
        Seq::empty()
    } else {
        joined(lines.drop_last()) + lines.last().push(NEWLINE)
    }
}

/// Bytes without a newline only extend the partial line.
proof fn lemma_append_line_bytes(b: Seq<u8>, line: Seq<u8>)
    requires
        no_newline(line),
    ensures
        complete_lines(b + line) == complete_lines(b),
        partial_line(b + line) == partial_line(b) + line,
    decreases line.len(),
{
    if line.len() == 0 {
        assert(b + line =~= b);
        assert(partial_line(b) + line =~= partial_line(b));
    } else {
        let init = line.drop_last();
        assert(no_newline(init)) by {
            assert forall|i: int| 0 <= i < init.len() implies init[i] != NEWLINE by {
                assert(init[i] == line[i]);
            }
        }
        lemma_append_line_bytes(b, init);
        assert(b + line =~= (b + init).push(line.last()));
        lemma_push_byte(b + init, line.last());
        assert(partial_line(b) + line =~= (partial_line(b) + init).push(line.last()));
    }
}

/// Newline-ended lines without inner newlines split back into those lines.
pub proof fn lemma_joined_lines(lines: Seq<Seq<u8>>)
    requires
        forall|i: int| 0 <= i < lines.len() ==> no_newline(#[trigger] lines[i]),
    ensures
        complete_lines(joined(lines)) == lines,
        partial_line(joined(lines)) == Seq::<u8>::empty(),
    decreases lines.len(),
{
    if lines.len() > 0 {
        let rest = lines.drop_last();
        assert forall|i: int| 0 <= i < rest.len() implies no_newline(#[trigger] rest[i]) by {
            assert(rest[i] == lines[i]);
        }
        lemma_joined_lines(rest);
        let line = lines.last();
        assert(no_newline(line));
        lemma_append_line_bytes(joined(rest), line);
        assert(joined(rest) + line.push(NEWLINE) =~= (joined(rest) + line).push(NEWLINE));
        lemma_push_byte(joined(rest) + line, NEWLINE);
        assert(Seq::<u8>::empty() + line =~= line);
        assert(rest.push(line) =~= lines);
    }
}

/// A backend stream of newline-ended lines, none a sentinel but the last,
/// yields one event per non-empty content delta and then the terminal event,
/// last; the stream's end adds nothing.
pub proof fn lemma_sentinel_closes_byte_stream(lines: Seq<Seq<u8>>, done: Seq<u8>)
    requires
        forall|i: int| 0 <= i < lines.len() ==> no_newline(#[trigger] lines[i]),
        forall|i: int| 0 <= i < lines.len() ==> line_event(#[trigger] lines[i]) != Some(None::<Seq<char>>),
        no_newline(done),
        line_event(done) == Some(None::<Seq<char>>),
    ensures
        events_so_far(joined(lines.push(done))).len() == delta_count(lines) + 1,
        events_so_far(joined(lines.push(done))).last() is None,
        forall|i: int|
            0 <= i < delta_count(lines) ==> (#[trigger] events_so_far(joined(lines.push(done)))[i]) is Some,
        events_at_end(joined(lines.push(done))) == events_so_far(joined(lines.push(done))),
{
    let all = lines.push(done);
    assert forall|i: int| 0 <= i < all.len() implies no_newline(#[trigger] all[i]) by {
        if i < lines.len() {
            assert(all[i] == lines[i]);
        }
    }
    lemma_joined_lines(all);
    lemma_sentinel_closes_stream(lines, done);
    lemma_push_line(all, Seq::<u8>::empty());
}

/// A stream holds at most one terminal event, and only as its last.
pub proof fn lemma_terminal_only_last(lines: Seq<Seq<u8>>)
    ensures
        forall|i: int| 0 <= i < stream_events(lines).len() - 1 ==> (#[trigger] stream_events(lines)[i]) is Some,
    decreases lines.len(),
{
    if lines.len() > 0 {
        lemma_terminal_only_last(lines.drop_last());
    }
}

/// No event of a stream is a delta with empty content.
pub proof fn lemma_no_empty_delta(lines: Seq<Seq<u8>>)
    ensures
        forall|i: int| 0 <= i < stream_events(lines).len() && (#[trigger] stream_events(lines)[i]) is Some
            ==> stream_events(lines)[i]->0.len() > 0,
    decreases lines.len(),
{
    if lines.len() > 0 {
        lemma_no_empty_delta(lines.drop_last());
    }
}

/// A line whose delta content is empty yields no event: the stream's events
/// are those of the lines before it.
pub proof fn lemma_empty_delta_dropped(lines: Seq<Seq<u8>>, line: Seq<u8>)
    requires
        trimmed(line_text(line)) != "[DONE]"@,
        json_of(line_text(line)) is Some,
        delta_content(json_of(line_text(line))->0) == Some(Seq::<char>::empty()),
    ensures
        stream_events(lines.push(line)) == stream_events(lines),
{
    lemma_push_line(lines, line);
}

/// `a` and `b` agree in every field but their timestamps.
pub open spec fn same_but_time(a: ChatRecord, b: ChatRecord) -> bool {
    &&& a.model@ == b.model@
    &&& a.message.role@ == b.message.role@
    &&& a.message.content@ == b.message.content@
    &&& a.done == b.done
    &&& a.total_duration == b.total_duration
    &&& a.load_duration == b.load_duration
    &&& a.prompt_eval_count == b.prompt_eval_count
    &&& a.prompt_eval_duration == b.prompt_eval_duration
    &&& a.eval_count == b.eval_count
    &&& a.eval_duration == b.eval_duration
}

/// The records of two runs of events, one after the other, are the records
/// of the joined events.
pub proof fn lemma_records_concat(
    a: Seq<ChatRecord>,
    b: Seq<ChatRecord>,
    ea: Seq<Option<Seq<char>>>,
    eb: Seq<Option<Seq<char>>>,
    model: Seq<char>,
)
    requires
        records_of(a, ea, model),
        records_of(b, eb, model),
    ensures
        records_of(a + b, ea + eb, model),
{
    assert forall|i: int| 0 <= i < (a + b).len() implies record_of_event(#[trigger] (a + b)[i], (ea + eb)[i], model) by {
        if i >= a.len() {
            assert(record_of_event(b[i - a.len()], eb[i - a.len()], model));
        }
    }
}

/// Transcoding the same backend bytes for the same model twice gives the
/// same records but for their timestamps.
pub proof fn lemma_transcoding_repeatable(
    first: Seq<ChatRecord>,
    second: Seq<ChatRecord>,
    bytes: Seq<u8>,
    model: Seq<char>,
)
    requires
        records_of(first, events_at_end(bytes), model),
        records_of(second, events_at_end(bytes), model),
    ensures
        first.len() == second.len(),
        forall|i: int| 0 <= i < first.len() ==> same_but_time(#[trigger] first[i], second[i]),
{
    assert forall|i: int| 0 <= i < first.len() implies same_but_time(#[trigger] first[i], second[i]) by {
        assert(record_of_event(first[i], events_at_end(bytes)[i], model));
        assert(record_of_event(second[i], events_at_end(bytes)[i], model));
    }
}

} // verus!
