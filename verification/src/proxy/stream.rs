//! Observation of a server-sent-event stream.
//!
//! [`SseObserver`] is fed the raw chunks of a streaming response. It buffers
//! bytes across chunk boundaries, reassembles complete lines and extracts the
//! token usage, the finish reason and the `[DONE]` marker from `data:` lines.
//! The bytes themselves are never changed: the caller forwards each chunk as
//! it arrived.
//!
//! The model of an observer is an [`ObserverState`]: the bytes still buffered
//! and what has been extracted so far. Every method is specified as a function
//! on that model, and [`lemma_chunking_is_irrelevant`] shows that the place of
//! the chunk boundaries does not matter as long as no line is longer than the
//! buffer's limit.

use crate::json::{parsed_json, Json};
use crate::text::{has_prefix, str_eq, trim, trimmed_of, utf8_text};
use vstd::prelude::*;
use vstd::slice::slice_subrange;
use vstd::utf8::{decode_utf8, encode_utf8, encode_utf8_decode_utf8, valid_utf8};

verus! {

/// Largest number of bytes kept while waiting for a newline. The beginning
/// of a line that has grown beyond it is discarded.
pub const BUFFER_CAP: usize = 65536;

/// Token usage extracted from a stream.
#[derive(Debug, Clone, PartialEq, Eq)]
pub struct StreamUsage {
    pub prompt_tokens: u32,
    pub completion_tokens: u32,
}

/// Result of observing a stream to its end.
#[derive(Debug, Clone)]
pub struct StreamResult {
    /// Token usage from the last chunk that carried a usage object.
    pub usage: Option<StreamUsage>,
    /// The finish reason of the last chunk that carried one.
    pub finish_reason: Option<String>,
    /// Whether `data: [DONE]` was received.
    pub done_received: bool,
}

/// What an observer has extracted: the model of a [`StreamResult`].
pub ghost struct Extracted {
    pub usage: Option<StreamUsage>,
    pub finish_reason: Option<Seq<char>>,
    pub done_received: bool,
}

/// The model of an [`SseObserver`].
pub ghost struct ObserverState {
    /// Bytes received after the last newline.
    pub buffer: Seq<u8>,
    /// What the complete lines so far have yielded.
    pub seen: Extracted,
}

/// Nothing extracted.
pub open spec fn nothing_seen() -> Extracted {
    Extracted { usage: None, finish_reason: None, done_received: false }
}

/// The state of a new observer.
pub open spec fn initial_state() -> ObserverState {
    ObserverState { buffer: Seq::empty(), seen: nothing_seen() }
}

/// The low 32 bits of a token count.
pub open spec fn low_32(n: u64) -> u32 {
    (n % 0x1_0000_0000) as u32
}

/// `choices[0].finish_reason` of a chunk, where it is a string.
pub open spec fn json_finish_reason(chunk: Json) -> Option<Seq<char>> {
    match chunk.member("choices"@) {
        Some(choices) => match choices.element(0) {
            Some(first) => match first.member("finish_reason"@) {
                Some(reason) => reason.text(),
                None => None,
            },
            None => None,
        },
        None => None,
    }
}

/// The `usage` member of a chunk, where it is not `null` and holds both
/// token counts as unsigned integers.
pub open spec fn json_usage(chunk: Json) -> Option<StreamUsage> {
    match chunk.member("usage"@) {
        Some(usage) => if usage is Null {
            None
        } else {
            match (usage.member("prompt_tokens"@), usage.member("completion_tokens"@)) {
                (Some(p), Some(c)) => match (p.unsigned(), c.unsigned()) {
                    (Some(prompt), Some(completion)) => Some(
                        StreamUsage {
                            prompt_tokens: low_32(prompt),
                            completion_tokens: low_32(completion),
                        },
                    ),
                    _ => None,
                },
                _ => None,
            }
        },
        None => None,
    }
}

/// The effect of one parsed chunk: a finish reason or a usage object in it
/// replaces the one remembered.
pub open spec fn chunk_effect(seen: Extracted, chunk: Json) -> Extracted {
    Extracted {
        usage: match json_usage(chunk) {
            Some(u) => Some(u),
            None => seen.usage,
        },
        finish_reason: match json_finish_reason(chunk) {
            Some(r) => Some(r),
            None => seen.finish_reason,
        },
        done_received: seen.done_received,
    }
}

/// The effect of the payload of a `data:` line. The payload is trimmed;
/// `[DONE]` sets the flag, a JSON document is applied as a chunk, anything
/// else is skipped.
pub open spec fn payload_effect(seen: Extracted, payload: Seq<char>) -> Extracted {
    let data = trimmed_of(payload);
    if data == "[DONE]"@ {
        Extracted { done_received: true, ..seen }
    } else {
        match parsed_json(data) {
            Some(chunk) => chunk_effect(seen, chunk),
            None => seen,
        }
    }
}

/// The bytes `event:`.
pub open spec fn event_field() -> Seq<u8> {
    seq![101u8, 118u8, 101u8, 110u8, 116u8, 58u8]
}

/// The bytes `id:`.
pub open spec fn id_field() -> Seq<u8> {
    seq![105u8, 100u8, 58u8]
}

/// The bytes `retry:`.
pub open spec fn retry_field() -> Seq<u8> {
    seq![114u8, 101u8, 116u8, 114u8, 121u8, 58u8]
}

/// The bytes `data:`.
pub open spec fn data_field() -> Seq<u8> {
    seq![100u8, 97u8, 116u8, 97u8, 58u8]
}

/// The bytes `data: `, with the space.
pub open spec fn data_field_spaced() -> Seq<u8> {
    seq![100u8, 97u8, 116u8, 97u8, 58u8, 32u8]
}

/// The payload of a line, if it is a `data:` line: what follows `data: `, or
/// what follows `data:` where no space does. Empty lines, comments and the
/// fields `event`, `id` and `retry` have none.
pub open spec fn line_payload(line: Seq<u8>) -> Option<Seq<u8>> {
    if line.len() == 0 {
        None
    } else if line[0] == 58u8 {
        None
    } else if event_field().is_prefix_of(line) || id_field().is_prefix_of(line)
        || retry_field().is_prefix_of(line) {
        None
    } else if data_field_spaced().is_prefix_of(line) {
        Some(line.subrange(6, line.len() as int))
    } else if data_field().is_prefix_of(line) {
        Some(line.subrange(5, line.len() as int))
    } else {
        None
    }
}

/// The effect of one line of text, given as its bytes.
pub open spec fn line_effect(seen: Extracted, line: Seq<u8>) -> Extracted {
    match line_payload(line) {
        Some(payload) => if valid_utf8(payload) {
            payload_effect(seen, decode_utf8(payload))
        } else {
            seen
        },
        None => seen,
    }
}

/// The effect of one line as it came off the wire: a line that is not valid
/// UTF-8 is skipped.
pub open spec fn raw_line_effect(seen: Extracted, raw: Seq<u8>) -> Extracted {
    if valid_utf8(raw) {
        line_effect(seen, raw)
    } else {
        seen
    }
}

/// A line without the carriage return that may end it.
pub open spec fn strip_cr(line: Seq<u8>) -> Seq<u8> {
    if line.len() > 0 && line.last() == 13u8 {
        line.drop_last()
    } else {
        line
    }
}

/// The index of the first newline in `buf`, or `buf.len()` if it has none.
pub open spec fn first_newline(buf: Seq<u8>) -> int
    decreases buf.len(),
{
    if buf.len() == 0 {
        0
    } else if buf[0] == 10u8 {
        0
    } else {
        1 + first_newline(buf.skip(1))
    }
}

/// Takes the complete lines off the front of `buf`, one after the other, and
/// keeps what follows the last newline.
pub open spec fn drain_lines(seen: Extracted, buf: Seq<u8>) -> ObserverState
    decreases buf.len(),
{
    let pos = first_newline(buf);
    if 0 <= pos < buf.len() {
        drain_lines(
            raw_line_effect(seen, strip_cr(buf.subrange(0, pos))),
            buf.subrange(pos + 1, buf.len() as int),
        )
    } else {
        ObserverState { buffer: buf, seen }
    }
}

/// The effect of one chunk. It is appended to the buffer and the complete
/// lines are taken. What is left is the beginning of a line; where that is
/// longer than [`BUFFER_CAP`], it is discarded.
pub open spec fn feed(state: ObserverState, chunk: Seq<u8>) -> ObserverState {
    let drained = drain_lines(state.seen, state.buffer + chunk);
    if drained.buffer.len() > BUFFER_CAP {
        ObserverState { buffer: Seq::empty(), seen: drained.seen }
    } else {
        drained
    }
}

/// The end of the stream: what is left in the buffer counts as a last line.
pub open spec fn flush(state: ObserverState) -> ObserverState {
    if state.buffer.len() == 0 {
        state
    } else {
        ObserverState {
            buffer: Seq::empty(),
            seen: raw_line_effect(state.seen, strip_cr(state.buffer)),
        }
    }
}

/// What is reported: nothing unless `[DONE]` was received.
pub open spec fn reported(seen: Extracted) -> Extracted {
    if seen.done_received {
        seen
    } else {
        nothing_seen()
    }
}

/// The state after a sequence of chunks.
pub open spec fn feed_all(state: ObserverState, chunks: Seq<Seq<u8>>) -> ObserverState
    decreases chunks.len(),
{
    if chunks.len() == 0 {
        state
    } else {
        feed_all(feed(state, chunks[0]), chunks.skip(1))
    }
}

/// The chunks, one after the other, as one byte sequence.
pub open spec fn joined(chunks: Seq<Seq<u8>>) -> Seq<u8>
    decreases chunks.len(),
{
    if chunks.len() == 0 {
        Seq::empty()
    } else {
        chunks[0] + joined(chunks.skip(1))
    }
}

/// The bytes from `from` up to `to` hold no newline.
pub open spec fn is_run(bytes: Seq<u8>, from: int, to: int) -> bool {
    &&& 0 <= from <= to <= bytes.len()
    &&& forall|k: int| from <= k < to ==> bytes[k] != 10u8
}

/// No line of the bytes is longer than [`BUFFER_CAP`]: every run without a
/// newline fits.
pub open spec fn lines_fit(bytes: Seq<u8>) -> bool {
    forall|from: int, to: int| #[trigger] is_run(bytes, from, to) ==> to - from <= BUFFER_CAP
}

/// What a new observer reports after the given chunks and the end of the
/// stream.
pub open spec fn observed(chunks: Seq<Seq<u8>>) -> Extracted {
    reported(flush(feed_all(initial_state(), chunks)).seen)
}

/// `first_newline` is the least index that holds a newline.
pub proof fn lemma_first_newline(buf: Seq<u8>)
    ensures
        0 <= first_newline(buf) <= buf.len(),
        first_newline(buf) < buf.len() ==> buf[first_newline(buf)] == 10u8,
        forall|k: int| 0 <= k < first_newline(buf) ==> buf[k] != 10u8,
    decreases buf.len(),
{
    if buf.len() > 0 && buf[0] != 10u8 {
        lemma_first_newline(buf.skip(1));
        assert forall|k: int| 0 <= k < first_newline(buf) implies buf[k] != 10u8 by {
            if k > 0 {
                assert(buf.skip(1)[k - 1] == buf[k]);
            }
        }
    }
}

/// The first newline of `a + b` is that of `a`, where `a` has one.
proof fn lemma_first_newline_of_concat(a: Seq<u8>, b: Seq<u8>)
    requires
        first_newline(a) < a.len(),
    ensures
        first_newline(a + b) == first_newline(a),
{
    lemma_first_newline(a);
    lemma_first_newline(a + b);
    let p = first_newline(a);
    let q = first_newline(a + b);
    assert((a + b)[p] == 10u8);
    if q < p {
        assert((a + b)[q] == a[q]);
    }
}

/// Draining `a + b` is draining `a`, appending `b` to what is left, and
/// draining again.
pub proof fn lemma_drain_in_two_steps(seen: Extracted, a: Seq<u8>, b: Seq<u8>)
    ensures
        drain_lines(seen, a + b) == drain_lines(
            drain_lines(seen, a).seen,
            drain_lines(seen, a).buffer + b,
        ),
    decreases a.len(),
{
    lemma_first_newline(a);
    let pos = first_newline(a);
    if pos < a.len() {
        lemma_first_newline_of_concat(a, b);
        let next = raw_line_effect(seen, strip_cr(a.subrange(0, pos)));
        assert((a + b).subrange(0, pos) =~= a.subrange(0, pos));
        assert((a + b).subrange(pos + 1, (a + b).len() as int) =~= a.subrange(
            pos + 1,
            a.len() as int,
        ) + b);
        lemma_drain_in_two_steps(next, a.subrange(pos + 1, a.len() as int), b);
    }
}

/// What is left after draining is the end of what was drained, and holds
/// no newline.
pub proof fn lemma_drain_leaves_a_run(seen: Extracted, buf: Seq<u8>)
    ensures
        ({
            let rest = drain_lines(seen, buf).buffer;
            &&& rest.len() <= buf.len()
            &&& rest == buf.subrange(buf.len() - rest.len(), buf.len() as int)
            &&& is_run(buf, buf.len() - rest.len(), buf.len() as int)
        }),
    decreases buf.len(),
{
    lemma_first_newline(buf);
    let pos = first_newline(buf);
    if pos < buf.len() {
        let tail = buf.subrange(pos + 1, buf.len() as int);
        let next = raw_line_effect(seen, strip_cr(buf.subrange(0, pos)));
        lemma_drain_leaves_a_run(next, tail);
        let rest = drain_lines(next, tail).buffer;
        assert(rest =~= buf.subrange(buf.len() - rest.len(), buf.len() as int));
        assert forall|k: int| buf.len() - rest.len() <= k < buf.len() implies buf[k] != 10u8 by {
            assert(buf[k] == tail[k - pos - 1]);
        }
    } else {
        assert(buf =~= buf.subrange(0, buf.len() as int));
    }
}

/// Where no line is longer than the buffer's limit, nothing is discarded:
/// the state after a sequence of chunks is that of draining all their
/// bytes at once.
pub proof fn lemma_feed_all_is_drain(seen: Extracted, sofar: Seq<u8>, chunks: Seq<Seq<u8>>)
    requires
        lines_fit(sofar + joined(chunks)),
    ensures
        feed_all(drain_lines(seen, sofar), chunks) == drain_lines(seen, sofar + joined(chunks)),
    decreases chunks.len(),
{
    if chunks.len() == 0 {
        assert(sofar + joined(chunks) =~= sofar);
    } else {
        let state = drain_lines(seen, sofar);
        let whole = sofar + joined(chunks);
        let head = sofar + chunks[0];
        lemma_drain_in_two_steps(seen, sofar, chunks[0]);
        lemma_drain_leaves_a_run(seen, head);
        let rest = drain_lines(seen, head).buffer;
        assert(head + joined(chunks.skip(1)) =~= whole);
        assert(is_run(whole, head.len() - rest.len(), head.len() as int)) by {
            assert forall|k: int| head.len() - rest.len() <= k < head.len() implies whole[k]
                != 10u8 by {
                assert(whole[k] == head[k]);
            }
        }
        assert(feed(state, chunks[0]) == drain_lines(seen, head));
        lemma_feed_all_is_drain(seen, head, chunks.skip(1));
    }
}

/// Feeding bytes in two chunks leaves the observer as feeding them in one,
/// where no line is longer than the buffer's limit.
pub proof fn lemma_two_chunks_feed_as_one(state: ObserverState, a: Seq<u8>, b: Seq<u8>)
    requires
        lines_fit(state.buffer + a + b),
    ensures
        feed(feed(state, a), b) == feed(state, a + b),
{
    let seen = state.seen;
    let head = state.buffer + a;
    let whole = state.buffer + a + b;
    assert(state.buffer + (a + b) =~= whole);
    lemma_drain_in_two_steps(seen, head, b);
    lemma_drain_leaves_a_run(seen, head);
    lemma_drain_leaves_a_run(seen, whole);
    let rest = drain_lines(seen, head).buffer;
    assert(is_run(whole, head.len() - rest.len(), head.len() as int)) by {
        assert forall|k: int| head.len() - rest.len() <= k < head.len() implies whole[k] != 10u8 by {
            assert(whole[k] == head[k]);
        }
    }
    let last = drain_lines(seen, whole).buffer;
    assert(is_run(whole, whole.len() - last.len(), whole.len() as int));
}

/// Two ways of cutting the same bytes into chunks give the same report, as
/// long as no line of the bytes is longer than the buffer's limit.
pub proof fn lemma_chunking_is_irrelevant(first: Seq<Seq<u8>>, second: Seq<Seq<u8>>)
    requires
        joined(first) == joined(second),
        lines_fit(joined(first)),
    ensures
        feed_all(initial_state(), first) == feed_all(initial_state(), second),
        observed(first) == observed(second),
{
    let empty = Seq::<u8>::empty();
    assert(drain_lines(nothing_seen(), empty) == initial_state());
    assert(empty + joined(first) =~= joined(first));
    assert(empty + joined(second) =~= joined(second));
    lemma_feed_all_is_drain(nothing_seen(), empty, first);
    lemma_feed_all_is_drain(nothing_seen(), empty, second);
}

impl View for StreamResult {
    type V = Extracted;

    open spec fn view(&self) -> Extracted {
        Extracted {
            usage: self.usage,
            finish_reason: match self.finish_reason {
                Some(s) => Some(s@),
                None => None,
            },
            done_received: self.done_received,
        }
    }
}

impl StreamResult {
    /// The result of a stream that ended without `[DONE]`.
    pub fn empty() -> (r: Self)
        ensures
            r@ == nothing_seen(),
    {
        Self { usage: None, finish_reason: None, done_received: false }
    }
}

/// Line buffer and extraction state for one stream.
pub struct SseObserver {
    buffer: Vec<u8>,
    usage: Option<StreamUsage>,
    finish_reason: Option<String>,
    done_received: bool,
}

impl View for SseObserver {
    type V = ObserverState;

    closed spec fn view(&self) -> ObserverState {
        ObserverState {
            buffer: self.buffer@,
            seen: Extracted {
                usage: self.usage,
                finish_reason: match self.finish_reason {
                    Some(s) => Some(s@),
                    None => None,
                },
                done_received: self.done_received,
            },
        }
    }
}

impl SseObserver {
    /// An observer that has seen nothing.
    pub fn new() -> (r: Self)
        ensures
            r@ == initial_state(),
    {
        Self { buffer: Vec::new(), usage: None, finish_reason: None, done_received: false }
    }

    /// Takes one chunk of the stream: its complete lines are read, together
    /// with what was buffered, and what follows the last newline is kept for
    /// the next chunk, unless it is longer than [`BUFFER_CAP`].
    pub fn process_chunk(&mut self, bytes: &[u8])
        ensures
            final(self)@ == feed(old(self)@, bytes@),
    {
        self.buffer.extend_from_slice(bytes);
        let mut pending: Vec<u8> = Vec::new();
        std::mem::swap(&mut pending, &mut self.buffer);
        let ghost seen0 = old(self)@.seen;
        assert(pending@ == old(self)@.buffer + bytes@);
        assert(pending@.subrange(0, pending@.len() as int) =~= pending@);
        let mut start: usize = 0;
        let mut i: usize = 0;
        while i < pending.len()
            invariant
                start <= i <= pending@.len(),
                self@.buffer.len() == 0,
                forall|k: int| start <= k < i ==> pending@[k] != 10u8,
                drain_lines(seen0, pending@) == drain_lines(
                    self@.seen,
                    pending@.subrange(start as int, pending@.len() as int),
                ),
            decreases pending@.len() - i,
        {
            if pending[i] == 10u8 {
                let line_end = if i > start && pending[i - 1] == 13u8 {
                    i - 1
                } else {
                    i
                };
                let raw = slice_subrange(pending.as_slice(), start, line_end);
                let ghost before = self@.seen;
                let ghost tail = pending@.subrange(start as int, pending@.len() as int);
                proof {
                    lemma_first_newline(tail);
                    let pos = first_newline(tail);
                    assert(tail[i - start] == 10u8);
                    if pos < i - start {
                        assert(tail[pos] == pending@[start + pos]);
                    }
                    assert(pos == i - start);
                    assert(tail.subrange(0, pos) =~= pending@.subrange(start as int, i as int));
                    assert(strip_cr(tail.subrange(0, pos)) =~= raw@);
                    assert(tail.subrange(pos + 1, tail.len() as int) =~= pending@.subrange(
                        i + 1,
                        pending@.len() as int,
                    ));
                }
                match utf8_text(raw) {
                    Some(line) => {
                        self.process_line(line);
                    },
                    None => {},
                }
                assert(self@.seen == raw_line_effect(before, raw@));
                start = i + 1;
            }
            i += 1;
        }
        let ghost whole = pending@;
        let rest = pending.split_off(start);
        proof {
            let tail = whole.subrange(start as int, whole.len() as int);
            lemma_first_newline(tail);
            let pos = first_newline(tail);
            if pos < tail.len() {
                assert(tail[pos] == whole[start + pos]);
            }
            assert(rest@ =~= tail);
            assert(drain_lines(seen0, whole) == (ObserverState { buffer: tail, seen: self@.seen }));
        }
        if rest.len() <= BUFFER_CAP {
            self.buffer = rest;
        } else {
            assert(self@.buffer =~= Seq::<u8>::empty());
        }
    }

    /// Treats what is left in the buffer as a last line.
    pub fn flush_buffer(&mut self)
        ensures
            final(self)@ == flush(old(self)@),
    {
        if self.buffer.len() == 0 {
            return ;
        }
        let mut remaining: Vec<u8> = Vec::new();
        std::mem::swap(&mut remaining, &mut self.buffer);
        let n = remaining.len();
        let end = if remaining[n - 1] == 13u8 {
            n - 1
        } else {
            n
        };
        let raw = slice_subrange(remaining.as_slice(), 0, end);
        assert(raw@ =~= strip_cr(remaining@));
        match utf8_text(raw) {
            Some(line) => {
                self.process_line(line);
            },
            None => {},
        }
    }

    /// Takes one complete line, without its line ending.
    pub fn process_line(&mut self, line: &str)
        ensures
            final(self)@ == (ObserverState {
                buffer: old(self)@.buffer,
                seen: line_effect(old(self)@.seen, encode_utf8(line@)),
            }),
    {
        let bytes = line.as_bytes();
        if bytes.len() == 0 {
            return ;
        }
        if bytes[0] == 58u8 {
            return ;
        }
        let event: [u8; 6] = [101u8, 118u8, 101u8, 110u8, 116u8, 58u8];
        let id: [u8; 3] = [105u8, 100u8, 58u8];
        let retry: [u8; 6] = [114u8, 101u8, 116u8, 114u8, 121u8, 58u8];
        let data: [u8; 5] = [100u8, 97u8, 116u8, 97u8, 58u8];
        let data_spaced: [u8; 6] = [100u8, 97u8, 116u8, 97u8, 58u8, 32u8];
        assert(event@ =~= event_field());
        assert(id@ =~= id_field());
        assert(retry@ =~= retry_field());
        assert(data@ =~= data_field());
        assert(data_spaced@ =~= data_field_spaced());
        if has_prefix(bytes, event.as_slice()) || has_prefix(bytes, id.as_slice()) || has_prefix(
            bytes,
            retry.as_slice(),
        ) {
            return ;
        }
        let payload = if has_prefix(bytes, data_spaced.as_slice()) {
            slice_subrange(bytes, 6, bytes.len())
        } else if has_prefix(bytes, data.as_slice()) {
            slice_subrange(bytes, 5, bytes.len())
        } else {
            return ;
        };
        match utf8_text(payload) {
            Some(text) => {
                proof {
                    encode_utf8_decode_utf8(text@);
                }
                self.process_data(text);
            },
            None => {},
        }
    }

    /// Takes the payload of a `data:` line.
    pub fn process_data(&mut self, data: &str)
        ensures
            final(self)@ == (ObserverState {
                buffer: old(self)@.buffer,
                seen: payload_effect(old(self)@.seen, data@),
            }),
    {
        let data = trim(data);
        if str_eq(data, "[DONE]") {
            self.done_received = true;
            return ;
        }
        match Json::parse(data) {
            Some(chunk) => {
                self.record_chunk(&chunk);
            },
            None => {},
        }
    }

    /// Takes one parsed chunk: remembers its finish reason and its usage,
    /// where it has them.
    pub fn record_chunk(&mut self, chunk: &Json)
        ensures
            final(self)@ == (ObserverState {
                buffer: old(self)@.buffer,
                seen: chunk_effect(old(self)@.seen, *chunk),
            }),
    {
        match finish_reason_of(chunk) {
            Some(reason) => {
                self.finish_reason = Some(reason);
            },
            None => {},
        }
        match usage_of(chunk) {
            Some(usage) => {
                self.usage = Some(usage);
            },
            None => {},
        }
    }

    /// What the observer would report now, without the bytes still buffered.
    pub fn build_result(&self) -> (r: StreamResult)
        ensures
            r@ == reported(self@.seen),
    {
        if !self.done_received {
            return StreamResult::empty();
        }
        StreamResult {
            usage: match &self.usage {
                Some(u) => Some(
                    StreamUsage {
                        prompt_tokens: u.prompt_tokens,
                        completion_tokens: u.completion_tokens,
                    },
                ),
                None => None,
            },
            finish_reason: match &self.finish_reason {
                Some(s) => Some(s.clone()),
                None => None,
            },
            done_received: true,
        }
    }

    /// Ends the stream and reports: the buffer is flushed, and nothing is
    /// reported unless `[DONE]` was received.
    pub fn into_result(self) -> (r: StreamResult)
        ensures
            r@ == reported(flush(self@).seen),
    {
        let mut this = self;
        this.flush_buffer();
        this.build_result()
    }
}

/// Reads `choices[0].finish_reason` of a chunk.
pub fn finish_reason_of(chunk: &Json) -> (r: Option<String>)
    ensures
        match r {
            Some(s) => json_finish_reason(*chunk) == Some(s@),
            None => json_finish_reason(*chunk) is None,
        },
{
    let choices = match chunk.get("choices") {
        Some(c) => c,
        None => {
            return None;
        },
    };
    let first = match choices.get_index(0) {
        Some(f) => f,
        None => {
            return None;
        },
    };
    let reason = match first.get("finish_reason") {
        Some(r) => r,
        None => {
            return None;
        },
    };
    match reason.as_str() {
        Some(s) => Some(String::from_str(s)),
        None => None,
    }
}

/// Reads the token usage of a chunk.
pub fn usage_of(chunk: &Json) -> (r: Option<StreamUsage>)
    ensures
        r == json_usage(*chunk),
{
    let usage = match chunk.get("usage") {
        Some(u) => u,
        None => {
            return None;
        },
    };
    if usage.is_null() {
        return None;
    }
    let prompt = match usage.get("prompt_tokens") {
        Some(p) => p.as_u64(),
        None => None,
    };
    let completion = match usage.get("completion_tokens") {
        Some(c) => c.as_u64(),
        None => None,
    };
    match (prompt, completion) {
        (Some(p), Some(c)) => Some(
            StreamUsage { prompt_tokens: truncate_32(p), completion_tokens: truncate_32(c) },
        ),
        _ => None,
    }
}

/// Keeps the low 32 bits of a token count.
fn truncate_32(n: u64) -> (r: u32)
    ensures
        r == low_32(n),
{
    (n % 0x1_0000_0000) as u32
}

} // verus!
