//! Replies of the chat-completions API, whole and streamed.
use super::request::ChatMessage;
use super::sessions::{spec_update_stream, stream_count_fits, Session, SessionView};
use crate::text::{chars_start_with, decode_lossy, string_from_chars, trim, trim_bounds, utf8_lossy};
use serde_json::Value;
use vstd::prelude::*;

verus! {

/// One candidate reply.
#[derive(Debug, Clone)]
pub struct Choice {
    pub index: usize,
    pub message: ChatMessage,
    pub finish_reason: Option<String>,
}

impl Choice {
    pub fn new(index: usize, message: ChatMessage, finish_reason: Option<String>) -> (r: Choice)
        ensures
            r == (Choice { index, message, finish_reason }),
    {
        Choice { index, message, finish_reason }
    }
}

/// A complete reply.
#[derive(Debug, Clone)]
pub struct ChatGptResponse {
    pub id: String,
    pub choices: Vec<Choice>,
    pub usage: Option<Value>,
}

impl ChatGptResponse {
    /// The message of the first choice.
    pub fn message(&self) -> (r: &ChatMessage)
        requires
            self.choices@.len() > 0,
        ensures
            *r == self.choices@[0].message,
    {
        &self.choices[0].message
    }

    /// The text of the first choice.
    pub fn text(&self) -> (r: &str)
        requires
            self.choices@.len() > 0,
        ensures
            r@ == self.choices@[0].message.content@,
    {
        self.message().content.as_str()
    }
}

/// The new part of a message in one streamed chunk.
#[derive(Debug, Clone)]
pub struct DeltaMessage {
    pub role: Option<String>,
    pub content: Option<String>,
}

/// One candidate of a streamed chunk.
#[derive(Debug, Clone)]
pub struct ChoiceDelta {
    pub index: usize,
    pub delta: DeltaMessage,
    pub finish_reason: Option<String>,
}

/// One chunk of a streamed reply.
#[derive(Debug, Clone)]
pub struct ChatGptStreamChunk {
    pub id: Option<String>,
    pub choices: Vec<ChoiceDelta>,
    pub usage: Option<Value>,
}

/// The new text that a choice carries, if any.
pub open spec fn choice_text(c: ChoiceDelta) -> Option<Seq<char>> {
    match c.delta.content {
        Some(t) => Some(t@),
        None => None,
    }
}

/// The texts of `choices` one after the other, skipping those without text.
pub open spec fn delta_text(choices: Seq<ChoiceDelta>) -> Seq<char>
    decreases choices.len(),
{
    if choices.len() == 0 {
        Seq::empty()
    } else {
        let head = delta_text(choices.drop_last());
        match choice_text(choices.last()) {
            Some(t) => head + t,
            None => head,
        }
    }
}

impl ChatGptStreamChunk {
    /// The text that the chunk adds: the contents of its choices joined.
    pub fn text_delta(&self) -> (r: String)
        ensures
            r@ == delta_text(self.choices@),
    {
        let mut out = String::new();
        let n = self.choices.len();
        let mut i: usize = 0;
        while i < n
            invariant
                n == self.choices@.len(),
                i <= n,
                out@ == delta_text(self.choices@.take(i as int)),
            decreases n - i,
        {
            let ghost post = self.choices@.take(i + 1);
            assert(post.drop_last() =~= self.choices@.take(i as int));
            assert(post.last() == self.choices@[i as int]);
            match &self.choices[i].delta.content {
                Some(t) => {
                    out.append(t.as_str());
                },
                None => {},
            }
            i = i + 1;
        }
        assert(self.choices@.take(n as int) =~= self.choices@);
        out
    }
}

/// Whether `pat` occurs in `b` at `i`.
pub open spec fn occurs_at(b: Seq<u8>, pat: Seq<u8>, i: int) -> bool {
    0 <= i && i + pat.len() <= b.len() && b.subrange(i, i + pat.len()) == pat
}

/// The first position at or after `from` where `pat` occurs in `b`.
pub open spec fn first_occurrence(b: Seq<u8>, pat: Seq<u8>, from: int) -> Option<int>
    decreases b.len() - from,
{
    if from < 0 || from >= b.len() || from + pat.len() > b.len() {
        None
    } else if occurs_at(b, pat, from) {
        Some(from)
    } else {
        first_occurrence(b, pat, from + 1)
    }
}

pub open spec fn blank_line() -> Seq<u8> {
    seq![10u8, 10u8]
}

pub open spec fn crlf_blank_line() -> Seq<u8> {
    seq![13u8, 10u8, 13u8, 10u8]
}

/// Where the first event of `b` ends: the first "\n\n", or, when there is none,
/// the first "\r\n\r\n"; as (position, length of the delimiter).
pub open spec fn spec_find_delimiter(b: Seq<u8>) -> Option<(int, int)> {
    match first_occurrence(b, blank_line(), 0) {
        Some(p) => Some((p, 2)),
        None => match first_occurrence(b, crlf_blank_line(), 0) {
            Some(p) => Some((p, 4)),
            None => None,
        },
    }
}

proof fn lemma_first_occurrence_bounds(b: Seq<u8>, pat: Seq<u8>, from: int)
    ensures
        first_occurrence(b, pat, from) matches Some(p) ==> from <= p && occurs_at(b, pat, p),
    decreases b.len() - from,
{
    if !(from < 0 || from >= b.len() || from + pat.len() > b.len()) && !occurs_at(b, pat, from) {
        lemma_first_occurrence_bounds(b, pat, from + 1);
    }
}

proof fn lemma_delimiter_in_bounds(b: Seq<u8>, p: int, l: int)
    requires
        spec_find_delimiter(b) == Some((p, l)),
    ensures
        0 <= p,
        0 < l,
        p + l <= b.len(),
{
    lemma_first_occurrence_bounds(b, blank_line(), 0);
    lemma_first_occurrence_bounds(b, crlf_blank_line(), 0);
    assert(blank_line().len() == 2);
    assert(crlf_blank_line().len() == 4);
}

/// The first position where `pat` occurs in `buffer`.
fn find_pattern(buffer: &[u8], pat: &[u8]) -> (r: Option<usize>)
    requires
        pat@.len() > 0,
    ensures
        r matches Some(p) ==> first_occurrence(buffer@, pat@, 0) == Some(p as int),
        r is None ==> first_occurrence(buffer@, pat@, 0) is None,
{
    let n = buffer.len();
    let m = pat.len();
    if m > n {
        return None;
    }
    let mut i: usize = 0;
    while i <= n - m
        invariant
            n == buffer@.len(),
            m == pat@.len(),
            0 < m <= n,
            i <= n - m + 1,
            first_occurrence(buffer@, pat@, 0) == first_occurrence(buffer@, pat@, i as int),
        decreases n - i,
    {
        let mut j: usize = 0;
        let mut same = true;
        while j < m
            invariant
                n == buffer@.len(),
                m == pat@.len(),
                i + m <= n,
                j <= m,
                same == (forall|k: int| 0 <= k < j ==> buffer@[i + k] == pat@[k]),
            decreases m - j,
        {
            if buffer[i + j] != pat[j] {
                same = false;
            }
            j = j + 1;
        }
        if same {
            assert(buffer@.subrange(i as int, i + m) =~= pat@);
            return Some(i);
        }
        proof {
            let k = choose|k: int| 0 <= k < m && buffer@[i + k] != pat@[k];
            assert(buffer@.subrange(i as int, i + m)[k] != pat@[k]);
        }
        i = i + 1;
    }
    None
}

/// Where the first event of `buffer` ends: the first "\n\n", or, when there is
/// none, the first "\r\n\r\n"; as (position, length of the delimiter).
pub fn find_delimiter(buffer: &[u8]) -> (r: Option<(usize, usize)>)
    ensures
        r matches Some((p, l)) ==> spec_find_delimiter(buffer@) == Some((p as int, l as int)),
        r is None ==> spec_find_delimiter(buffer@) is None,
{
    let lf: [u8; 2] = [10u8, 10u8];
    assert(lf@ =~= blank_line());
    match find_pattern(buffer, &lf) {
        Some(p) => Some((p, 2)),
        None => {
            let crlf: [u8; 4] = [13u8, 10u8, 13u8, 10u8];
            assert(crlf@ =~= crlf_blank_line());
            match find_pattern(buffer, &crlf) {
                Some(p) => Some((p, 4)),
                None => None,
            }
        },
    }
}

/// The end of the first event of `b`, if it holds a complete one.
pub open spec fn first_event_end(b: Seq<u8>) -> Option<int> {
    match spec_find_delimiter(b) {
        Some((p, l)) => Some(p + l),
        None => None,
    }
}

/// What one event of the stream means.
pub enum EventKind {
    /// Not a data line, or a data line without payload.
    Skip,
    /// The `[DONE]` marker that ends the stream.
    Done,
    /// A payload, to be read as a JSON chunk.
    Data(Seq<char>),
}

pub open spec fn data_prefix() -> Seq<char> {
    seq!['d', 'a', 't', 'a', ':']
}

pub open spec fn done_marker() -> Seq<char> {
    seq!['[', 'D', 'O', 'N', 'E', ']']
}

/// The meaning of the bytes of one event: the text (decoded leniently) is
/// trimmed; if it starts with "data:", the trimmed rest is its payload.
pub open spec fn classify_event(bytes: Seq<u8>) -> EventKind {
    let t = trim(utf8_lossy(bytes));
    if t.len() >= 5 && t.take(5) == data_prefix() {
        let payload = trim(t.skip(5));
        if payload.len() == 0 {
            EventKind::Skip
        } else if payload == done_marker() {
            EventKind::Done
        } else {
            EventKind::Data(payload)
        }
    } else {
        EventKind::Skip
    }
}

/// The next meaningful event of `b`, and what remains of `b` after it: events
/// to skip are consumed on the way; with no complete event left, the rest is
/// kept and `Skip` stands for "need more bytes".
pub open spec fn spec_next_event(b: Seq<u8>) -> (EventKind, Seq<u8>)
    decreases b.len(),
{
    match first_event_end(b) {
        Some(end) => if 0 < end <= b.len() {
            let kind = classify_event(b.take(end));
            if kind is Skip {
                spec_next_event(b.skip(end))
            } else {
                (kind, b.skip(end))
            }
        } else {
            (EventKind::Skip, b)
        },
        None => (EventKind::Skip, b),
    }
}

/// The decoder answers "need more bytes" only when no complete event is left in
/// what it keeps; and what it keeps is always a suffix of what it was given.
pub proof fn law_need_more_only_without_complete_event(b: Seq<u8>)
    ensures
        spec_next_event(b).0 is Skip ==> spec_find_delimiter(spec_next_event(b).1) is None,
        spec_next_event(b).1 =~= b.skip(b.len() - spec_next_event(b).1.len()),
        spec_next_event(b).1.len() <= b.len(),
    decreases b.len(),
{
    match spec_find_delimiter(b) {
        Some((p, l)) => {
            lemma_delimiter_in_bounds(b, p, l);
            let end = p + l;
            let rest = b.skip(end);
            law_need_more_only_without_complete_event(rest);
            let kept = spec_next_event(rest).1;
            assert(rest.skip(rest.len() - kept.len()) =~= b.skip(b.len() - kept.len()));
        },
        None => {
            assert(b.skip(0) =~= b);
        },
    }
}

/// What the decoder hands out.
#[derive(Debug)]
pub enum SseEvent {
    /// No complete event is buffered: more bytes are needed.
    NeedMore,
    /// The stream is over.
    Done,
    /// The payload of a data event.
    Data(String),
}

/// Whether the decoder's answer `e` is the abstract event `k`.
pub open spec fn event_matches(e: SseEvent, k: EventKind) -> bool {
    match e {
        SseEvent::NeedMore => k is Skip,
        SseEvent::Done => k is Done,
        SseEvent::Data(s) => k matches EventKind::Data(p) && s@ == p,
    }
}

/// Splits a byte stream of server-sent events into events.
#[derive(Debug)]
pub struct SseDecoder {
    buffer: Vec<u8>,
}

impl SseDecoder {
    /// The bytes received and not yet consumed.
    pub closed spec fn pending(&self) -> Seq<u8> {
        self.buffer@
    }

    pub fn new() -> (r: SseDecoder)
        ensures
            r.pending() == Seq::<u8>::empty(),
    {
        SseDecoder { buffer: Vec::new() }
    }

    /// Buffers `bytes` after what is pending.
    pub fn push_bytes(&mut self, bytes: &[u8])
        ensures
            final(self).pending() == old(self).pending() + bytes@,
    {
        let n = bytes.len();
        let mut i: usize = 0;
        while i < n
            invariant
                n == bytes@.len(),
                i <= n,
                self.buffer@ == old(self).buffer@ + bytes@.take(i as int),
            decreases n - i,
        {
            self.buffer.push(bytes[i]);
            assert(bytes@.take(i + 1) =~= bytes@.take(i as int).push(bytes@[i as int]));
            i = i + 1;
        }
        assert(bytes@.take(n as int) =~= bytes@);
    }

    /// The next data payload or end marker, consuming the events before it; with
    /// no complete event buffered, `NeedMore` and nothing is consumed.
    pub fn next_event(&mut self) -> (r: SseEvent)
        ensures
            event_matches(r, spec_next_event(old(self).pending()).0),
            final(self).pending() == spec_next_event(old(self).pending()).1,
    {
        loop
            invariant
                spec_next_event(self.buffer@) == spec_next_event(old(self).buffer@),
            decreases self.buffer@.len(),
        {
            let blen = self.buffer.len();
            let found = find_delimiter(self.buffer.as_slice());
            let (pos, delim_len) = match found {
                Some(pd) => pd,
                None => return SseEvent::NeedMore,
            };
            proof {
                lemma_delimiter_in_bounds(self.buffer@, pos as int, delim_len as int);
            }
            let end = pos + delim_len;
            let ghost before = self.buffer@;
            let rest = self.buffer.split_off(end);
            let mut message = rest;
            std::mem::swap(&mut self.buffer, &mut message);
            assert(message@ == before.take(end as int));
            assert(self.buffer@ == before.skip(end as int));
            let raw = decode_lossy(message.as_slice());
            let (lo, hi) = trim_bounds(&raw, 0, raw.len());
            assert(raw@.subrange(0, raw@.len() as int) =~= raw@);
            let prefix = vec!['d', 'a', 't', 'a', ':'];
            assert(prefix@ =~= data_prefix());
            if chars_start_with(&raw, lo, hi, &prefix) {
                let (a, b) = trim_bounds(&raw, lo + 5, hi);
                proof {
                    let t = raw@.subrange(lo as int, hi as int);
                    assert(t.take(5) =~= raw@.subrange(lo as int, lo + 5));
                    assert(t.skip(5) =~= raw@.subrange(lo + 5, hi as int));
                }
                if a < b {
                    let done = vec!['[', 'D', 'O', 'N', 'E', ']'];
                    assert(done@ =~= done_marker());
                    if b - a == 6 && chars_start_with(&raw, a, b, &done) {
                        assert(raw@.subrange(a as int, b as int) =~= raw@.subrange(a as int, a + 6));
                        return SseEvent::Done;
                    }
                    let payload = string_from_chars(&raw.as_slice()[a..b]);
                    proof {
                        let p = raw@.subrange(a as int, b as int);
                        if p == done_marker() {
                            assert(b - a == 6);
                            assert(raw@.subrange(a as int, a + 6) =~= p);
                        }
                    }
                    return SseEvent::Data(payload);
                }
            } else {
                proof {
                    let t = raw@.subrange(lo as int, hi as int);
                    if t.len() >= 5 {
                        assert(t.take(5) =~= raw@.subrange(lo as int, lo + 5));
                    }
                }
            }
        }
    }

    /// At the end of the stream: the leftover text, decoded leniently, or `None`
    /// when nothing is pending. The buffer is emptied.
    pub fn finish(&mut self) -> (r: Option<String>)
        ensures
            old(self).pending().len() == 0 ==> r.is_none(),
            old(self).pending().len() > 0 ==> (r matches Some(s) && s@ == utf8_lossy(
                old(self).pending(),
            )),
            final(self).pending() == Seq::<u8>::empty(),
    {
        if self.buffer.len() == 0 {
            return None;
        }
        let text = decode_lossy(self.buffer.as_slice());
        let s = string_from_chars(text.as_slice());
        self.buffer.clear();
        Some(s)
    }
}

/// The session after recording, in turn, chunks with these choices.
pub open spec fn stream_session(start: SessionView, chunks: Seq<Seq<ChoiceDelta>>) -> SessionView
    decreases chunks.len(),
{
    if chunks.len() == 0 {
        start
    } else {
        spec_update_stream(stream_session(start, chunks.drop_last()), chunks.last())
    }
}

/// The state of a streamed reply: the byte stream, the session that records the
/// chunks, and the decoder of the stream's events; in ghost, the session the
/// stream started from and the choices of the chunks recorded so far.
pub struct ResponseStream<S> {
    response_stream: S,
    session: Session,
    decoder: SseDecoder,
    start: Ghost<SessionView>,
    recorded: Ghost<Seq<Seq<ChoiceDelta>>>,
}

impl<S> ResponseStream<S> {
    pub closed spec fn session_of(&self) -> Session {
        self.session
    }

    /// The session the stream started from.
    pub closed spec fn start_of(&self) -> SessionView {
        self.start@
    }

    /// The choices of the chunks recorded so far, in order.
    pub closed spec fn recorded_of(&self) -> Seq<Seq<ChoiceDelta>> {
        self.recorded@
    }

    /// The stream's session is the session it started from, updated by each
    /// recorded chunk in turn. `new` establishes it and every method keeps it.
    pub open spec fn wf(&self) -> bool {
        self.session_of()@ == stream_session(self.start_of(), self.recorded_of())
    }

    pub closed spec fn stream_of(&self) -> S {
        self.response_stream
    }

    pub closed spec fn pending(&self) -> Seq<u8> {
        self.decoder.pending()
    }

    pub fn new(response_stream: S, session: Session) -> (r: ResponseStream<S>)
        ensures
            r.session_of() == session,
            r.stream_of() == response_stream,
            r.pending() == Seq::<u8>::empty(),
            r.start_of() == session@,
            r.recorded_of() == Seq::<Seq<ChoiceDelta>>::empty(),
            r.wf(),
    {
        let ghost start = session@;
        ResponseStream {
            response_stream,
            session,
            decoder: SseDecoder::new(),
            start: Ghost(start),
            recorded: Ghost(Seq::empty()),
        }
    }

    pub fn get_session(&self) -> (r: &Session)
        ensures
            *r == self.session_of(),
    {
        &self.session
    }

    pub fn get_session_owned(self) -> (r: Session)
        ensures
            r == self.session_of(),
    {
        self.session
    }

    /// The byte stream, to poll it.
    pub fn stream_mut(&mut self) -> (r: &mut S)
        ensures
            *r == old(self).stream_of(),
            final(self).stream_of() == *final(r),
            final(self).session_of() == old(self).session_of(),
            final(self).pending() == old(self).pending(),
            final(self).start_of() == old(self).start_of(),
            final(self).recorded_of() == old(self).recorded_of(),
    {
        &mut self.response_stream
    }

    /// Buffers bytes received from the stream.
    pub fn feed(&mut self, bytes: &[u8])
        ensures
            final(self).pending() == old(self).pending() + bytes@,
            final(self).session_of() == old(self).session_of(),
            final(self).stream_of() == old(self).stream_of(),
            final(self).start_of() == old(self).start_of(),
            final(self).recorded_of() == old(self).recorded_of(),
    {
        self.decoder.push_bytes(bytes);
    }

    /// The next buffered event; see `SseDecoder::next_event`.
    pub fn next_event(&mut self) -> (r: SseEvent)
        ensures
            event_matches(r, spec_next_event(old(self).pending()).0),
            final(self).pending() == spec_next_event(old(self).pending()).1,
            final(self).session_of() == old(self).session_of(),
            final(self).stream_of() == old(self).stream_of(),
            final(self).start_of() == old(self).start_of(),
            final(self).recorded_of() == old(self).recorded_of(),
    {
        self.decoder.next_event()
    }

    /// Records a chunk read from a data event in the session.
    pub fn record_chunk(&mut self, chunk: &ChatGptStreamChunk)
        requires
            stream_count_fits(old(self).session_of()@, chunk.choices@),
        ensures
            final(self).session_of()@ == spec_update_stream(old(self).session_of()@, chunk.choices@),
            final(self).pending() == old(self).pending(),
            final(self).stream_of() == old(self).stream_of(),
            final(self).start_of() == old(self).start_of(),
            final(self).recorded_of() == old(self).recorded_of().push(chunk.choices@),
            old(self).wf() ==> final(self).wf(),
    {
        self.session.update_stream(chunk);
        proof {
            let pushed = self.recorded@.push(chunk.choices@);
            assert(pushed.drop_last() =~= self.recorded@);
            self.recorded@ = pushed;
        }
    }

    /// At the end of the byte stream: the leftover text, if any.
    pub fn finish(&mut self) -> (r: Option<String>)
        ensures
            old(self).pending().len() == 0 ==> r.is_none(),
            old(self).pending().len() > 0 ==> (r matches Some(s) && s@ == utf8_lossy(
                old(self).pending(),
            )),
            final(self).pending() == Seq::<u8>::empty(),
            final(self).session_of() == old(self).session_of(),
            final(self).stream_of() == old(self).stream_of(),
            final(self).start_of() == old(self).start_of(),
            final(self).recorded_of() == old(self).recorded_of(),
    {
        self.decoder.finish()
    }
}

} // verus!
