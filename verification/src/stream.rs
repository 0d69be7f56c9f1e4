//! Server-sent events, and the provider-neutral event stream they are mapped into.

use crate::error::{AiError, AiErrorView};
use crate::model;
use crate::model::{ThinkingLevel, Usage};
use bytes::Bytes;
use std::collections::VecDeque;
use vstd::prelude::*;
use vstd::string::*;
use vstd::utf8::*;

verus! {

/// One event of a response stream.
#[derive(Debug)]
pub enum StreamEvent {
    TextDelta { delta: String },
    ThinkingDelta { delta: String },
    ToolCallStarted { id: String, name: String },
    ToolCallArgsDelta { id: String, delta: String },
    ToolCallDone { id: String },
    /// Usage of the whole response.
    Usage { usage: Usage },
    Partial { thinking: Option<ThinkingLevel> },
    /// The last event of a stream.
    Done { stop_reason: StopReason },
    Error(String),
}

/// What a `StreamEvent` denotes.
pub enum StreamEventView {
    TextDelta { delta: Seq<char> },
    ThinkingDelta { delta: Seq<char> },
    ToolCallStarted { id: Seq<char>, name: Seq<char> },
    ToolCallArgsDelta { id: Seq<char>, delta: Seq<char> },
    ToolCallDone { id: Seq<char> },
    Usage { usage: Usage },
    Partial { thinking: Option<ThinkingLevel> },
    Done { stop_reason: StopReason },
    Error(Seq<char>),
}

impl View for StreamEvent {
    type V = StreamEventView;

    open spec fn view(&self) -> StreamEventView {
        match self {
            StreamEvent::TextDelta { delta } => StreamEventView::TextDelta { delta: delta@ },
            StreamEvent::ThinkingDelta { delta } => StreamEventView::ThinkingDelta {
                delta: delta@,
            },
            StreamEvent::ToolCallStarted { id, name } => StreamEventView::ToolCallStarted {
                id: id@,
                name: name@,
            },
            StreamEvent::ToolCallArgsDelta { id, delta } => StreamEventView::ToolCallArgsDelta {
                id: id@,
                delta: delta@,
            },
            StreamEvent::ToolCallDone { id } => StreamEventView::ToolCallDone { id: id@ },
            StreamEvent::Usage { usage } => StreamEventView::Usage { usage: *usage },
            StreamEvent::Partial { thinking } => StreamEventView::Partial { thinking: *thinking },
            StreamEvent::Done { stop_reason } => StreamEventView::Done {
                stop_reason: *stop_reason,
            },
            StreamEvent::Error(m) => StreamEventView::Error(m@),
        }
    }
}

/// The views of a list of events.
pub open spec fn event_views(s: Seq<StreamEvent>) -> Seq<StreamEventView> {
    s.map_values(|e: StreamEvent| e@)
}

/// Why a response ended.
#[derive(Debug, Clone, Copy, PartialEq, Eq, Structural)]
pub enum StopReason {
    Stop,
    Length,
    ToolUse,
    Error,
    Aborted,
}

impl Default for StopReason {
    fn default() -> (r: Self)
        ensures
            r == StopReason::Stop,
    {
        StopReason::Stop
    }
}

/// The view of what a stream yields: an event or an error.
pub open spec fn item_view(r: Result<StreamEvent, AiError>) -> Result<
    StreamEventView,
    AiErrorView,
> {
    match r {
        Ok(e) => Ok(e@),
        Err(e) => Err(e@),
    }
}

/// The views of what a stream yields.
pub open spec fn item_views(s: Seq<Result<StreamEvent, AiError>>) -> Seq<
    Result<StreamEventView, AiErrorView>,
> {
    s.map_values(|r: Result<StreamEvent, AiError>| item_view(r))
}

/// What a drained stream adds up to.
pub struct Totals {
    pub text: Seq<char>,
    pub thinking: Seq<char>,
    pub usage: Usage,
}

/// The totals of a stream: its text and thinking deltas in order, and its last usage.
pub open spec fn totals(s: Seq<Result<StreamEventView, AiErrorView>>) -> Totals
    decreases s.len(),
{
    if s.len() == 0 {
        Totals { text: Seq::empty(), thinking: Seq::empty(), usage: model::no_usage() }
    } else {
        let t = totals(s.drop_last());
        match s.last() {
            Ok(StreamEventView::TextDelta { delta }) => Totals { text: t.text + delta, ..t },
            Ok(StreamEventView::ThinkingDelta { delta }) => Totals {
                thinking: t.thinking + delta,
                ..t
            },
            Ok(StreamEventView::Usage { usage }) => Totals { usage, ..t },
            _ => t,
        }
    }
}

/// The received part of a response stream, read from the front.
#[derive(Debug)]
pub struct StreamReader {
    rx: VecDeque<Result<StreamEvent, AiError>>,
}

impl View for StreamReader {
    type V = Seq<Result<StreamEventView, AiErrorView>>;

    closed spec fn view(&self) -> Seq<Result<StreamEventView, AiErrorView>> {
        item_views(self.rx@)
    }
}

impl StreamReader {
    /// A reader over what was received.
    pub fn new(rx: VecDeque<Result<StreamEvent, AiError>>) -> (r: Self)
        ensures
            r@ == item_views(rx@),
    {
        StreamReader { rx }
    }

    /// The next item, or nothing at the end.
    pub fn next(&mut self) -> (r: Option<Result<StreamEvent, AiError>>)
        ensures
            match r {
                Some(x) => old(self)@.len() > 0 && item_view(x) == old(self)@[0] && final(self)@
                    == old(self)@.drop_first(),
                None => old(self)@.len() == 0 && final(self)@ == old(self)@,
            },
    {
        let ghost before = self.rx@;
        let r = self.rx.pop_front();
        proof {
            if before.len() > 0 {
                assert(item_views(self.rx@) =~= item_views(before).drop_first());
            }
        }
        r
    }

    /// Drains the reader: the whole text, the whole thinking and the last usage.
    pub fn collect(self) -> (r: (String, String, Usage))
        ensures
            r.0@ == totals(self@).text,
            r.1@ == totals(self@).thinking,
            r.2 == totals(self@).usage,
    {
        let mut sr = self;
        let ghost all = sr@;
        let mut text = String::new();
        let mut thinking = String::new();
        let mut usage = Usage::default();
        let ghost mut seen: int = 0;
        assert(all.take(0) =~= Seq::empty());
        assert(all.skip(0) =~= all);
        loop
            invariant
                0 <= seen <= all.len(),
                sr@ == all.skip(seen),
                text@ == totals(all.take(seen)).text,
                thinking@ == totals(all.take(seen)).thinking,
                usage == totals(all.take(seen)).usage,
            ensures
                seen == all.len(),
                text@ == totals(all.take(seen)).text,
                thinking@ == totals(all.take(seen)).thinking,
                usage == totals(all.take(seen)).usage,
            decreases all.len() - seen,
        {
            match sr.next() {
                None => {
                    break;
                },
                Some(item) => {
                    proof {
                        assert(all.skip(seen)[0] == all[seen]);
                        assert(all.take(seen + 1).drop_last() =~= all.take(seen));
                        assert(all.take(seen + 1).last() == item_view(item));
                        assert(all.skip(seen).drop_first() =~= all.skip(seen + 1));
                        seen = seen + 1;
                    }
                    match item {
                        Ok(StreamEvent::TextDelta { delta }) => {
                            text.append(delta.as_str());
                        },
                        Ok(StreamEvent::ThinkingDelta { delta }) => {
                            thinking.append(delta.as_str());
                        },
                        Ok(StreamEvent::Usage { usage: u }) => {
                            usage = u;
                        },
                        _ => {},
                    }
                },
            }
        }
        assert(all.take(all.len() as int) =~= all);
        (text, thinking, usage)
    }
}

/// The number of events that end a stream.
pub open spec fn done_count(events: Seq<StreamEventView>) -> nat
    decreases events.len(),
{
    if events.len() == 0 {
        0
    } else {
        done_count(events.drop_last()) + (if events.last() is Done {
            1nat
        } else {
            0nat
        })
    }
}

/// The ends of two lists, one behind the other, add up.
pub proof fn lemma_done_count_concat(a: Seq<StreamEventView>, b: Seq<StreamEventView>)
    ensures
        done_count(a + b) == done_count(a) + done_count(b),
    decreases b.len(),
{
    if b.len() == 0 {
        assert(a + b =~= a);
    } else {
        lemma_done_count_concat(a, b.drop_last());
        assert((a + b).drop_last() =~= a + b.drop_last());
    }
}

// ---- text of raw bytes ----------------------------------------------------------------------

/// What `String::from_utf8_lossy` makes of a byte sequence.
pub uninterp spec fn utf8_lossy(bytes: Seq<u8>) -> Seq<char>;

/// Decodes bytes with `String::from_utf8_lossy`: the text is a function of the bytes, and
/// valid UTF-8 is decoded as it stands.
#[verifier::external_body]
pub(crate) fn lossy_text(bytes: &[u8]) -> (r: String)
    ensures
        r@ == utf8_lossy(bytes@),
        valid_utf8(bytes@) ==> r@ == decode_utf8(bytes@),
{
    String::from_utf8_lossy(bytes).into_owned()
}

/// `bytes::Bytes`, a shared byte buffer.
#[verifier::external_type_specification]
#[verifier::external_body]
pub struct ExBytes(bytes::Bytes);

/// The bytes that a buffer holds.
pub uninterp spec fn bytes_contents(b: Bytes) -> Seq<u8>;

/// Copies a buffer's bytes out with `Bytes::to_vec`.
#[verifier::external_body]
fn bytes_to_vec(b: &Bytes) -> (r: Vec<u8>)
    ensures
        r@ == bytes_contents(*b),
{
    b.to_vec()
}

// ---- splitting an SSE byte stream -------------------------------------------------------------

/// What a splitter has seen: the incomplete line, the payload of the event that is being
/// read, and the payloads of the events that are complete.
pub struct SseState {
    pub line: Seq<u8>,
    pub pending: Seq<u8>,
    pub out: Seq<Result<Seq<char>, AiErrorView>>,
}

/// The state with its pending payload, if any, handed out.
pub open spec fn sse_flush(s: SseState) -> SseState {
    if s.pending.len() > 0 {
        SseState { pending: Seq::empty(), out: s.out.push(Ok(utf8_lossy(s.pending))), ..s }
    } else {
        s
    }
}

/// A line without the carriage return at its end.
pub open spec fn sse_line(l: Seq<u8>) -> Seq<u8> {
    if l.len() > 0 && l.last() == 13 {
        l.drop_last()
    } else {
        l
    }
}

/// The value of a `data:` field, without one leading space.
pub open spec fn sse_data(l: Seq<u8>) -> Option<Seq<u8>> {
    if l.len() >= 5 && l[0] == 100 && l[1] == 97 && l[2] == 116 && l[3] == 97 && l[4] == 58 {
        if l.len() > 5 && l[5] == 32 {
            Some(l.skip(6))
        } else {
            Some(l.skip(5))
        }
    } else {
        None
    }
}

/// The state after a complete line: a blank line, like an empty `data:` field, ends the
/// event; other `data:` fields are joined by line feeds; all other lines are ignored.
pub open spec fn sse_dispatch(s: SseState, line: Seq<u8>) -> SseState {
    let l = sse_line(line);
    if l.len() == 0 {
        sse_flush(s)
    } else {
        match sse_data(l) {
            None => s,
            Some(d) => if d.len() == 0 {
                sse_flush(s)
            } else if s.pending.len() > 0 {
                SseState { pending: s.pending.push(10) + d, ..s }
            } else {
                SseState { pending: d, ..s }
            },
        }
    }
}

/// The state after one more byte.
pub open spec fn sse_step(s: SseState, b: u8) -> SseState {
    if b == 10 {
        sse_dispatch(SseState { line: Seq::empty(), ..s }, s.line)
    } else {
        SseState { line: s.line.push(b), ..s }
    }
}

/// The state after more bytes.
pub open spec fn sse_feed(s: SseState, bytes: Seq<u8>) -> SseState
    decreases bytes.len(),
{
    if bytes.len() == 0 {
        s
    } else {
        sse_step(sse_feed(s, bytes.drop_last()), bytes.last())
    }
}

/// The state at the end of the stream: an incomplete line counts as a line, and a pending
/// payload is handed out.
pub open spec fn sse_finish(s: SseState) -> SseState {
    let t = SseState { line: Seq::empty(), ..s };
    if s.line.len() > 0 {
        sse_flush(sse_dispatch(t, s.line))
    } else {
        sse_flush(t)
    }
}

/// The state before any byte.
pub open spec fn sse_start() -> SseState {
    SseState { line: Seq::empty(), pending: Seq::empty(), out: Seq::empty() }
}

/// Splits an SSE byte stream into `data:` payloads. Payloads collect in an output queue
/// until `take_output`.
pub struct SseSplitter {
    buf: Vec<u8>,
    pending: Vec<u8>,
    out: Vec<Result<String, AiError>>,
}

/// The view of a payload or error.
pub open spec fn payload_view(r: Result<String, AiError>) -> Result<Seq<char>, AiErrorView> {
    match r {
        Ok(t) => Ok(t@),
        Err(e) => Err(e@),
    }
}

/// The views of a list of payloads and errors.
pub open spec fn payload_views(s: Seq<Result<String, AiError>>) -> Seq<
    Result<Seq<char>, AiErrorView>,
> {
    s.map_values(|r: Result<String, AiError>| payload_view(r))
}

impl View for SseSplitter {
    type V = SseState;

    closed spec fn view(&self) -> SseState {
        SseState { line: self.buf@, pending: self.pending@, out: payload_views(self.out@) }
    }
}

impl SseSplitter {
    /// A splitter that has seen nothing.
    pub fn new() -> (r: Self)
        ensures
            r@ == sse_start(),
    {
        let r = SseSplitter { buf: Vec::new(), pending: Vec::new(), out: Vec::new() };
        assert(payload_views(r.out@) =~= Seq::empty());
        assert(r@.line =~= Seq::empty());
        assert(r@.pending =~= Seq::empty());
        r
    }

    /// Takes in the next chunk.
    pub fn push(&mut self, chunk: Bytes)
        ensures
            final(self)@ == sse_feed(old(self)@, bytes_contents(chunk)),
    {
        let v = bytes_to_vec(&chunk);
        self.push_slice(v.as_slice());
    }

    /// Takes in the next bytes: complete lines are dispatched, the tail stays buffered.
    pub fn push_slice(&mut self, chunk: &[u8])
        ensures
            final(self)@ == sse_feed(old(self)@, chunk@),
    {
        let ghost start = self@;
        let mut i: usize = 0;
        assert(chunk@.take(0) =~= Seq::<u8>::empty());
        while i < chunk.len()
            invariant
                i <= chunk@.len(),
                self@ == sse_feed(start, chunk@.take(i as int)),
            decreases chunk@.len() - i,
        {
            proof {
                assert(chunk@.take(i + 1).drop_last() =~= chunk@.take(i as int));
                assert(chunk@.take(i + 1).last() == chunk@[i as int]);
            }
            let ghost mid = self@;
            let b = chunk[i];
            if b == 10 {
                let line = self.take_line();
                self.dispatch_line(&line);
            } else {
                self.buf.push(b);
                assert(self@.line =~= mid.line.push(b));
            }
            i += 1;
        }
        assert(chunk@.take(chunk@.len() as int) =~= chunk@);
    }

    fn take_line(&mut self) -> (r: Vec<u8>)
        ensures
            r@ == old(self)@.line,
            final(self)@ == (SseState { line: Seq::empty(), ..old(self)@ }),
    {
        let mut line: Vec<u8> = Vec::new();
        std::mem::swap(&mut line, &mut self.buf);
        assert(self.buf@ =~= Seq::empty());
        line
    }

    /// Ends the stream: the buffered tail counts as a line, and a pending payload is
    /// handed out.
    pub fn finish(&mut self)
        ensures
            final(self)@ == sse_finish(old(self)@),
    {
        let tail = self.take_line();
        if tail.len() > 0 {
            self.dispatch_line(&tail);
        }
        self.emit_pending();
    }

    fn dispatch_line(&mut self, line: &Vec<u8>)
        ensures
            final(self)@ == sse_dispatch(old(self)@, line@),
    {
        let ghost start = self@;
        let mut n: usize = line.len();
        if n > 0 && line[n - 1] == 13 {
            n -= 1;
        }
        let ghost l = sse_line(line@);
        assert(l =~= line@.take(n as int));
        if n == 0 {
            self.emit_pending();
            return;
        }
        if n >= 5 && line[0] == 100 && line[1] == 97 && line[2] == 116 && line[3] == 97 && line[4]
            == 58 {
            let mut from: usize = 5;
            if n > 5 && line[5] == 32 {
                from = 6;
            }
            let ghost d = l.skip(from as int);
            assert(sse_data(l) == Some(d));
            if from == n {
                self.emit_pending();
                return;
            }
            if self.pending.len() > 0 {
                self.pending.push(10);
            }
            let ghost head = self.pending@;
            let mut i: usize = from;
            while i < n
                invariant
                    from <= i <= n <= line@.len(),
                    l == line@.take(n as int),
                    d == l.skip(from as int),
                    self.pending@ =~= head + d.take(i - from),
                    self.buf@ == start.line,
                    payload_views(self.out@) == start.out,
                decreases n - i,
            {
                proof {
                    assert(d.take(i - from + 1) =~= d.take(i - from).push(line@[i as int]));
                }
                self.pending.push(line[i]);
                i += 1;
            }
            proof {
                assert(d.take(n - from) =~= d);
                assert(self@.pending =~= sse_dispatch(start, line@).pending);
            }
        }
    }

    fn emit_pending(&mut self)
        ensures
            final(self)@ == sse_flush(old(self)@),
    {
        if self.pending.len() > 0 {
            let mut payload: Vec<u8> = Vec::new();
            std::mem::swap(&mut payload, &mut self.pending);
            let t = lossy_text(payload.as_slice());
            let ghost before = self.out@;
            let item: Result<String, AiError> = Ok(t);
            self.out.push(item);
            proof {
                assert(payload_views(self.out@) =~= payload_views(before).push(payload_view(item)));
                assert(self.pending@ =~= Seq::empty());
            }
        }
    }

    /// Reports an error downstream, behind the payloads so far.
    pub fn out_send_err(&mut self, e: AiError)
        ensures
            final(self)@ == (SseState { out: old(self)@.out.push(Err(e@)), ..old(self)@ }),
    {
        let ghost before = self.out@;
        let item: Result<String, AiError> = Err(e);
        self.out.push(item);
        assert(payload_views(self.out@) =~= payload_views(before).push(payload_view(item)));
    }

    /// Hands over the payloads and errors so far.
    pub fn take_output(&mut self) -> (r: Vec<Result<String, AiError>>)
        ensures
            payload_views(r@) == old(self)@.out,
            final(self)@ == (SseState { out: Seq::empty(), ..old(self)@ }),
    {
        let mut out: Vec<Result<String, AiError>> = Vec::new();
        std::mem::swap(&mut out, &mut self.out);
        assert(payload_views(self.out@) =~= Seq::empty());
        out
    }
}

// ---- laws ---------------------------------------------------------------------------------------

/// Feeding two chunks is feeding their concatenation.
pub proof fn sse_feed_concat(s: SseState, a: Seq<u8>, b: Seq<u8>)
    ensures
        sse_feed(sse_feed(s, a), b) == sse_feed(s, a + b),
    decreases b.len(),
{
    if b.len() == 0 {
        assert(a + b =~= a);
    } else {
        sse_feed_concat(s, a, b.drop_last());
        assert((a + b).drop_last() =~= a + b.drop_last());
    }
}

/// The state after a list of chunks.
pub open spec fn sse_feed_all(s: SseState, chunks: Seq<Seq<u8>>) -> SseState
    decreases chunks.len(),
{
    if chunks.len() == 0 {
        s
    } else {
        sse_feed(sse_feed_all(s, chunks.drop_last()), chunks.last())
    }
}

/// The document that a list of chunks makes up.
pub open spec fn concatenated(chunks: Seq<Seq<u8>>) -> Seq<u8>
    decreases chunks.len(),
{
    if chunks.len() == 0 {
        Seq::empty()
    } else {
        concatenated(chunks.drop_last()) + chunks.last()
    }
}

/// Wherever a document is cut into chunks, the same payloads come out, once each and in
/// order.
pub proof fn sse_chunking_is_irrelevant(s: SseState, chunks: Seq<Seq<u8>>)
    ensures
        sse_feed_all(s, chunks) == sse_feed(s, concatenated(chunks)),
    decreases chunks.len(),
{
    if chunks.len() > 0 {
        sse_chunking_is_irrelevant(s, chunks.drop_last());
        sse_feed_concat(s, concatenated(chunks.drop_last()), chunks.last());
    }
}

/// Payloads that have come out are never taken back or reordered by later bytes.
pub proof fn sse_output_is_final(s: SseState, bytes: Seq<u8>)
    ensures
        s.out.len() <= sse_feed(s, bytes).out.len(),
        sse_feed(s, bytes).out.take(s.out.len() as int) == s.out,
    decreases bytes.len(),
{
    if bytes.len() > 0 {
        sse_output_is_final(s, bytes.drop_last());
        let mid = sse_feed(s, bytes.drop_last());
        let end = sse_feed(s, bytes);
        assert(end.out == mid.out || end.out == mid.out.push(Ok(utf8_lossy(mid.pending))));
        assert(end.out.take(s.out.len() as int) =~= mid.out.take(s.out.len() as int));
    } else {
        assert(s.out.take(s.out.len() as int) =~= s.out);
    }
}

/// The bytes `data: `, the line, and a line feed.
pub open spec fn sse_field(line: Seq<u8>) -> Seq<u8> {
    seq![100u8, 97u8, 116u8, 97u8, 58u8, 32u8] + line + seq![10u8]
}

/// The fields of a payload's lines, one after the other.
pub open spec fn sse_fields(lines: Seq<Seq<u8>>) -> Seq<u8>
    decreases lines.len(),
{
    if lines.len() == 0 {
        Seq::empty()
    } else {
        sse_fields(lines.drop_last()) + sse_field(lines.last())
    }
}

/// The lines with a line feed between neighbours.
pub open spec fn line_joined(lines: Seq<Seq<u8>>) -> Seq<u8>
    decreases lines.len(),
{
    if lines.len() == 0 {
        Seq::empty()
    } else if lines.len() == 1 {
        lines[0]
    } else {
        line_joined(lines.drop_last()).push(10) + lines.last()
    }
}

/// A line that one `data:` field can carry: not empty, without line feed, and not ended by
/// a carriage return.
pub open spec fn sse_carries(line: Seq<u8>) -> bool {
    &&& line.len() > 0
    &&& line.last() != 13
    &&& forall|i: int| 0 <= i < line.len() ==> line[i] != 10
}

proof fn lemma_feed_unbroken(s: SseState, bytes: Seq<u8>)
    requires
        forall|i: int| 0 <= i < bytes.len() ==> bytes[i] != 10,
    ensures
        sse_feed(s, bytes) == (SseState { line: s.line + bytes, ..s }),
    decreases bytes.len(),
{
    if bytes.len() > 0 {
        lemma_feed_unbroken(s, bytes.drop_last());
        assert((s.line + bytes.drop_last()).push(bytes.last()) =~= s.line + bytes);
    } else {
        assert(s.line + bytes =~= s.line);
    }
}

proof fn lemma_feed_field(s: SseState, line: Seq<u8>)
    requires
        s.line.len() == 0,
        sse_carries(line),
    ensures
        sse_feed(s, sse_field(line)) == (SseState {
            pending: if s.pending.len() > 0 {
                s.pending.push(10) + line
            } else {
                line
            },
            ..s
        }),
{
    let prefix = seq![100u8, 97u8, 116u8, 97u8, 58u8, 32u8];
    let l = prefix + line;
    assert(sse_field(line) =~= l + seq![10u8]);
    assert(sse_field(line).drop_last() =~= l);
    lemma_feed_unbroken(s, l);
    assert(s.line + l =~= l);
    assert(l.last() == line.last());
    assert(sse_data(l) == Some(l.skip(6)));
    assert(l.skip(6) =~= line);
    assert(s.line =~= Seq::empty());
}

proof fn lemma_feed_fields(s: SseState, lines: Seq<Seq<u8>>)
    requires
        s.line.len() == 0,
        s.pending.len() == 0,
        lines.len() > 0,
        forall|i: int| 0 <= i < lines.len() ==> sse_carries(#[trigger] lines[i]),
    ensures
        sse_feed(s, sse_fields(lines)) == (SseState { pending: line_joined(lines), ..s }),
        line_joined(lines).len() > 0,
    decreases lines.len(),
{
    let rest = lines.drop_last();
    if rest.len() == 0 {
        assert(sse_fields(rest) =~= Seq::empty());
        assert(sse_fields(lines) =~= sse_field(lines.last()));
        lemma_feed_field(s, lines.last());
    } else {
        lemma_feed_fields(s, rest);
        lemma_feed_field(sse_feed(s, sse_fields(rest)), lines.last());
        sse_feed_concat(s, sse_fields(rest), sse_field(lines.last()));
    }
}

/// A payload written as one `data:` field per line, ended by a blank line, comes out as its
/// lines joined by line feeds.
pub proof fn sse_block_yields_payload(s: SseState, lines: Seq<Seq<u8>>)
    requires
        s.line.len() == 0,
        s.pending.len() == 0,
        lines.len() > 0,
        forall|i: int| 0 <= i < lines.len() ==> sse_carries(#[trigger] lines[i]),
    ensures
        sse_feed(s, sse_fields(lines).push(10)) == (SseState {
            out: s.out.push(Ok(utf8_lossy(line_joined(lines)))),
            ..s
        }),
{
    lemma_feed_fields(s, lines);
    assert(sse_fields(lines).push(10).drop_last() =~= sse_fields(lines));
    assert(s.line =~= Seq::empty());
    assert(s.pending =~= Seq::empty());
}

/// What a stream adds up to is made of its parts: the texts and the thinking of two stretches
/// stand behind one another, and the usage is that of the last event that tells one.
pub proof fn totals_add_up(
    a: Seq<Result<StreamEventView, AiErrorView>>,
    b: Seq<Result<StreamEventView, AiErrorView>>,
)
    ensures
        totals(a + b).text == totals(a).text + totals(b).text,
        totals(a + b).thinking == totals(a).thinking + totals(b).thinking,
    decreases b.len(),
{
    if b.len() == 0 {
        assert(a + b =~= a);
        assert(totals(a).text + totals(b).text =~= totals(a).text);
        assert(totals(a).thinking + totals(b).thinking =~= totals(a).thinking);
    } else {
        totals_add_up(a, b.drop_last());
        assert((a + b).drop_last() =~= a + b.drop_last());
        assert(totals(a + b).text =~= totals(a).text + totals(b).text);
        assert(totals(a + b).thinking =~= totals(a).thinking + totals(b).thinking);
    }
}

/// Of a single event only what it tells counts: a text delta is text, a thinking delta is
/// thinking, usage is usage, and everything else is nothing.
pub proof fn totals_of_one_event(
    s: Seq<Result<StreamEventView, AiErrorView>>,
    item: Result<StreamEventView, AiErrorView>,
)
    ensures
        item matches Ok(StreamEventView::TextDelta { delta }) ==> totals(s.push(item)).text
            == totals(s).text + delta,
        !(item is Ok && item->Ok_0 is TextDelta) ==> totals(s.push(item)).text == totals(s).text,
        item matches Ok(StreamEventView::ThinkingDelta { delta }) ==> totals(
            s.push(item),
        ).thinking == totals(s).thinking + delta,
        !(item is Ok && item->Ok_0 is ThinkingDelta) ==> totals(s.push(item)).thinking == totals(
            s,
        ).thinking,
        item matches Ok(StreamEventView::Usage { usage }) ==> totals(s.push(item)).usage == usage,
        !(item is Ok && item->Ok_0 is Usage) ==> totals(s.push(item)).usage == totals(s).usage,
        totals(Seq::empty()).text.len() == 0,
        totals(Seq::empty()).thinking.len() == 0,
        totals(Seq::empty()).usage == model::no_usage(),
{
    assert(s.push(item).drop_last() =~= s);
}

/// Whether a line holds no line feed and no carriage return at its end.
pub open spec fn sse_unbroken(line: Seq<u8>) -> bool {
    &&& forall|i: int| 0 <= i < line.len() ==> line[i] != 10
    &&& line.len() > 0 ==> line.last() != 13
}

proof fn lemma_feed_line(s: SseState, line: Seq<u8>)
    requires
        s.line.len() == 0,
        forall|i: int| 0 <= i < line.len() ==> line[i] != 10,
    ensures
        sse_feed(s, line.push(10)) == sse_dispatch(s, line),
{
    lemma_feed_unbroken(s, line);
    assert(line.push(10).drop_last() =~= line);
    assert(s.line + line =~= line);
    assert(s.line =~= Seq::empty());
}

/// A carriage return before a line feed makes no difference.
pub proof fn sse_line_ends_are_alike(s: SseState, line: Seq<u8>)
    requires
        s.line.len() == 0,
        sse_unbroken(line),
    ensures
        sse_feed(s, line.push(13).push(10)) == sse_feed(s, line.push(10)),
{
    lemma_feed_line(s, line);
    let l = line.push(13);
    assert forall|i: int| 0 <= i < l.len() implies l[i] != 10 by {
        if i < line.len() {
            assert(l[i] == line[i]);
        }
    }
    lemma_feed_line(s, l);
    assert(l.drop_last() =~= line);
}

/// The blank behind the colon of a field may be left out: the field carries the same payload.
pub proof fn sse_blank_is_optional(s: SseState, line: Seq<u8>)
    requires
        s.line.len() == 0,
        sse_carries(line),
        line[0] != 32,
    ensures
        sse_feed(s, seq![100u8, 97u8, 116u8, 97u8, 58u8] + line + seq![10u8]) == sse_feed(
            s,
            sse_field(line),
        ),
{
    let prefix = seq![100u8, 97u8, 116u8, 97u8, 58u8];
    let l = prefix + line;
    assert(l + seq![10u8] =~= l.push(10));
    lemma_feed_line(s, l);
    assert(l.last() == line.last());
    assert(l[5] == line[0]);
    assert(l.skip(5) =~= line);
    assert(sse_data(l) == Some(line));
    lemma_feed_field(s, line);
}

/// Lines that are no `data:` fields, such as comments and event names, change nothing.
pub proof fn sse_other_lines_are_ignored(s: SseState, line: Seq<u8>)
    requires
        s.line.len() == 0,
        sse_unbroken(line),
        line.len() > 0,
        line[0] != 100 || line.len() < 5 || line[1] != 97 || line[2] != 116 || line[3] != 97
            || line[4] != 58,
    ensures
        sse_feed(s, line.push(10)) == s,
{
    lemma_feed_line(s, line);
}

/// A blank line hands the pending payload out, and does nothing where there is none.
pub proof fn sse_blank_line_ends_the_event(s: SseState)
    requires
        s.line.len() == 0,
    ensures
        s.pending.len() > 0 ==> sse_feed(s, seq![10u8]) == (SseState {
            pending: Seq::empty(),
            out: s.out.push(Ok(utf8_lossy(s.pending))),
            ..s
        }),
        s.pending.len() == 0 ==> sse_feed(s, seq![10u8]) == s,
{
    let none = Seq::<u8>::empty();
    lemma_feed_line(s, none);
    assert(none.push(10) =~= seq![10u8]);
}

/// At the end of the stream nothing is lost: a payload that no blank line ended is handed out,
/// even where its last line has no line feed.
pub proof fn sse_end_loses_nothing(s: SseState, line: Seq<u8>)
    requires
        s.line.len() == 0,
        s.pending.len() == 0,
        sse_carries(line),
    ensures
        sse_finish(sse_feed(s, sse_field(line))).out == s.out.push(Ok(utf8_lossy(line))),
        sse_finish(sse_feed(s, sse_field(line).drop_last())).out == s.out.push(
            Ok(utf8_lossy(line)),
        ),
        sse_finish(s).out == s.out,
{
    lemma_feed_field(s, line);
    let prefix = seq![100u8, 97u8, 116u8, 97u8, 58u8, 32u8];
    let l = prefix + line;
    assert(sse_field(line).drop_last() =~= l);
    lemma_feed_unbroken(s, l);
    assert(s.line + l =~= l);
    assert(l.last() == line.last());
    assert(l.skip(6) =~= line);
    assert(sse_data(l) == Some(line));
}

/// A field without payload ends the event as a blank line does.
pub proof fn sse_empty_field_ends_the_event(s: SseState)
    requires
        s.line.len() == 0,
    ensures
        sse_feed(s, seq![100u8, 97u8, 116u8, 97u8, 58u8, 10u8]) == sse_feed(s, seq![10u8]),
        sse_start().line.len() == 0 && sse_start().pending.len() == 0 && sse_start().out.len() == 0,
{
    let field = seq![100u8, 97u8, 116u8, 97u8, 58u8];
    lemma_feed_line(s, field);
    assert(field.push(10) =~= seq![100u8, 97u8, 116u8, 97u8, 58u8, 10u8]);
    let none = Seq::<u8>::empty();
    lemma_feed_line(s, none);
    assert(none.push(10) =~= seq![10u8]);
    assert(sse_data(field) == Some(field.skip(5)));
}

} // verus!
