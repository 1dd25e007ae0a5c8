//! The streaming pipeline: a chunk-to-line splitter and a line-to-event
//! decoder, plus the endpoint-to-path mapping used to open a stream.
//!
//! Data flows one way: byte chunks are buffered by [`Lines`], complete
//! terminator-delimited lines are decoded as UTF-8, and [`Timeline`] runs a
//! two-state protocol machine over the lines to produce [`Event`] values.
//! The pipeline is pull-based and fail-fast; suspension ("no complete line
//! buffered yet") is reported as `Ok(None)` and never consumes input, so an
//! embedding can feed chunks exactly as its transport delivers them.

use vstd::prelude::*;
use vstd::string::{StrSliceExecFns, StringExecFns};
use vstd::utf8::{decode_utf8, valid_utf8};
use crate::encoding::{query_encode, spec_query_encoded};
use crate::error::{Error, ErrorView};
use crate::text::{has_prefix, starts_with, str_eq, string_from_utf8, suffix_from};

verus! {

/// The byte that ends a line on the wire.
pub const LINE_TERMINATOR: u8 = 0x0a;

/// A subscription target, mapped by [`Endpoint::as_path`] to a request path.
#[derive(Clone, Debug, PartialEq)]
pub enum Endpoint {
    /// The authenticated user's home feed.
    User,
    /// The authenticated user's notifications.
    Notification,
    /// The federated public feed.
    Federated,
    /// The local public feed.
    Local,
    /// All public statuses carrying the given hashtag.
    Hashtag(String),
    /// Local public statuses carrying the given hashtag.
    LocalHashtag(String),
    /// An escape hatch: a request path passed through verbatim.
    Other(String),
}

/// The request path for an endpoint: a fixed path per feed, with a free-text
/// hashtag carried percent-encoded in a query parameter.
pub open spec fn spec_endpoint_path(e: Endpoint) -> Seq<char> {
    match e {
        Endpoint::User => "/api/v1/streaming/user"@,
        Endpoint::Notification => "/api/v1/streaming/user/notification"@,
        Endpoint::Federated => "/api/v1/streaming/public"@,
        Endpoint::Local => "/api/v1/streaming/public/local"@,
        Endpoint::Hashtag(tag) => "/api/v1/streaming/hashtag?tag="@ + spec_query_encoded(tag@),
        Endpoint::LocalHashtag(tag) => "/api/v1/streaming/hashtag/local?tag="@
            + spec_query_encoded(tag@),
        Endpoint::Other(path) => path@,
    }
}

impl Endpoint {
    /// The request path to open this subscription, per
    /// [`spec_endpoint_path`].
    pub fn as_path(&self) -> (r: String)
        ensures
            r@ == spec_endpoint_path(*self),
    {
        match self {
            Endpoint::User => "/api/v1/streaming/user".to_owned(),
            Endpoint::Notification => "/api/v1/streaming/user/notification".to_owned(),
            Endpoint::Federated => "/api/v1/streaming/public".to_owned(),
            Endpoint::Local => "/api/v1/streaming/public/local".to_owned(),
            Endpoint::Hashtag(tag) => {
                let mut path = "/api/v1/streaming/hashtag?tag=".to_owned();
                let encoded = query_encode(tag.as_str());
                path.append(encoded.as_str());
                path
            },
            Endpoint::LocalHashtag(tag) => {
                let mut path = "/api/v1/streaming/hashtag/local?tag=".to_owned();
                let encoded = query_encode(tag.as_str());
                path.append(encoded.as_str());
                path
            },
            Endpoint::Other(path) => path.clone(),
        }
    }
}

/// The declared type of a pending event frame.
#[derive(Clone, Copy, Debug, PartialEq, Eq, Structural)]
pub enum EventType {
    Update,
    Notification,
    Delete,
}

/// The decoder's protocol state: either between frames, or holding an event
/// declaration and awaiting its payload line.
#[derive(Clone, Copy, Debug, PartialEq, Eq, Structural)]
pub enum DecoderState {
    Idle,
    Pending(EventType),
}

/// Ghost image of an [`Event`]: the same variants over character sequences.
pub enum EventView {
    Update(Seq<char>),
    Notification(Seq<char>),
    Delete(Seq<char>),
    Heartbeat,
}

/// One decoded feed event.
///
/// `Update` and `Notification` carry the raw payload text of their frame,
/// checked to be one JSON object document; turning it into a typed value is
/// the consumer's step. `Delete` carries the deleted status's identifier as
/// an opaque string.
#[derive(Clone, Debug, PartialEq)]
pub enum Event {
    Update(String),
    Notification(String),
    Delete(String),
    Heartbeat,
}

impl View for Event {
    type V = EventView;

    open spec fn view(&self) -> EventView {
        match self {
            Event::Update(payload) => EventView::Update(payload@),
            Event::Notification(payload) => EventView::Notification(payload@),
            Event::Delete(id) => EventView::Delete(id@),
            Event::Heartbeat => EventView::Heartbeat,
        }
    }
}

impl DeepView for Event {
    type V = EventView;

    open spec fn deep_view(&self) -> EventView {
        self.view()
    }
}

/// What one line does to the decoder: emit an event, emit nothing, or fail.
pub enum StepView {
    Emit(EventView),
    Skip,
    Fail(ErrorView),
}

/// Whether a text value is one complete JSON object document.
pub uninterp spec fn json_object(s: Seq<char>) -> bool;

/// Relies on `serde_json::from_str` (into `serde_json::Map`): parsing
/// succeeds exactly when the whole text is a single JSON object document
/// (within the parser's fixed nesting limit), and the outcome depends on
/// the text alone.
#[verifier::external_body]
fn json_object_valid(s: &str) -> (r: bool)
    ensures
        r == json_object(s@),
{
    serde_json::from_str::<serde_json::Map<String, serde_json::Value>>(s).is_ok()
}

/// The decoder's transition for one line, evaluated in fixed order whatever
/// the state.
///
/// A line opening with `:` is a heartbeat: it is emitted at once and leaves
/// the state alone, a pending declaration included. Otherwise, between
/// frames (`Idle`), an `event: ` line declares a frame's type — `update`,
/// `delete` or `notification`; any other name fails — an empty line is
/// ignored, and any other line fails. With a declaration pending, a `data: `
/// line closes the frame: the remainder is the payload, checked as a JSON
/// object for `update` and `notification` and taken verbatim as the
/// identifier for `delete`; any other line (an empty one included) fails —
/// but the state is reset to `Idle` first, so one bad frame does not leave
/// the decoder stuck waiting for a payload that will never come.
pub open spec fn spec_step(state: DecoderState, line: Seq<char>) -> (DecoderState, StepView) {
    if line.len() > 0 && line[0] == ':' {
        (state, StepView::Emit(EventView::Heartbeat))
    } else {
        match state {
            DecoderState::Idle => {
                if starts_with(line, "event: "@) {
                    let name = line.skip("event: "@.len() as int);
                    if name == "update"@ {
                        (DecoderState::Pending(EventType::Update), StepView::Skip)
                    } else if name == "delete"@ {
                        (DecoderState::Pending(EventType::Delete), StepView::Skip)
                    } else if name == "notification"@ {
                        (DecoderState::Pending(EventType::Notification), StepView::Skip)
                    } else {
                        (DecoderState::Idle, StepView::Fail(ErrorView::EventType(name)))
                    }
                } else if line.len() == 0 {
                    (DecoderState::Idle, StepView::Skip)
                } else {
                    (
                        DecoderState::Idle,
                        StepView::Fail(ErrorView::StreamingState("event"@, line)),
                    )
                }
            },
            DecoderState::Pending(t) => {
                if starts_with(line, "data: "@) {
                    let payload = line.skip("data: "@.len() as int);
                    match t {
                        EventType::Update => if json_object(payload) {
                            (DecoderState::Idle, StepView::Emit(EventView::Update(payload)))
                        } else {
                            (DecoderState::Idle, StepView::Fail(ErrorView::Deserialize(payload)))
                        },
                        EventType::Notification => if json_object(payload) {
                            (
                                DecoderState::Idle,
                                StepView::Emit(EventView::Notification(payload)),
                            )
                        } else {
                            (DecoderState::Idle, StepView::Fail(ErrorView::Deserialize(payload)))
                        },
                        EventType::Delete => (
                            DecoderState::Idle,
                            StepView::Emit(EventView::Delete(payload)),
                        ),
                    }
                } else {
                    (DecoderState::Idle, StepView::Fail(ErrorView::StreamingState("data"@, line)))
                }
            },
        }
    }
}

/// A heartbeat line never disturbs the protocol: whatever the decoder's
/// state, a line opening with `:` emits a heartbeat and leaves the state —
/// a pending declaration included — exactly as it was.
pub proof fn lemma_heartbeat_preserves_state(state: DecoderState, line: Seq<char>)
    requires
        line.len() > 0 && line[0] == ':',
    ensures
        spec_step(state, line) == (state, StepView::Emit(EventView::Heartbeat)),
{
}

/// A failing line always leaves the decoder between frames: whenever a line
/// earns an error, the resulting state is `Idle`, so the next well-formed
/// frame decodes normally and one violation never leaves the decoder stuck.
pub proof fn lemma_failure_resets_state(state: DecoderState, line: Seq<char>)
    ensures
        spec_step(state, line).1 is Fail ==> spec_step(state, line).0 == DecoderState::Idle,
{
}

/// The position of the first line terminator in `b`, if any.
pub open spec fn first_terminator(b: Seq<u8>) -> Option<int>
    decreases b.len(),
{
    if b.len() == 0 {
        None
    } else if b[0] == LINE_TERMINATOR {
        Some(0int)
    } else {
        match first_terminator(b.drop_first()) {
            Some(i) => Some(i + 1),
            None => None,
        }
    }
}

/// `first_terminator` finds exactly the first occurrence of the terminator.
pub proof fn lemma_first_terminator(b: Seq<u8>)
    ensures
        match first_terminator(b) {
            Some(i) => 0 <= i < b.len() && b[i] == LINE_TERMINATOR && forall|j: int|
                0 <= j < i ==> b[j] != LINE_TERMINATOR,
            None => forall|j: int| 0 <= j < b.len() ==> b[j] != LINE_TERMINATOR,
        },
    decreases b.len(),
{
    if b.len() == 0 {
    } else if b[0] == LINE_TERMINATOR {
    } else {
        let t = b.drop_first();
        lemma_first_terminator(t);
        assert(forall|j: int| 0 <= j < t.len() ==> t[j] == #[trigger] b[j + 1]);
        match first_terminator(t) {
            Some(i) => {
                assert(first_terminator(b) == Some(i + 1));
                assert(b[i + 1] == t[i]);
                assert forall|j: int| 0 <= j < i + 1 implies b[j] != LINE_TERMINATOR by {
                    if j > 0 {
                        assert(t[j - 1] != LINE_TERMINATOR);
                    }
                }
            },
            None => {
                assert forall|j: int| 0 <= j < b.len() implies b[j] != LINE_TERMINATOR by {
                    if j > 0 {
                        assert(t[j - 1] != LINE_TERMINATOR);
                    }
                }
            },
        }
    }
}

/// The complete, terminator-delimited line segments of `b`, terminators
/// stripped. Bytes after the last terminator are not part of any segment.
pub open spec fn spec_lines(b: Seq<u8>) -> Seq<Seq<u8>>
    decreases b.len(),
    via spec_lines_decreases
{
    match first_terminator(b) {
        None => Seq::<Seq<u8>>::empty(),
        Some(i) => seq![b.take(i)] + spec_lines(b.skip(i + 1)),
    }
}

#[via_fn]
proof fn spec_lines_decreases(b: Seq<u8>) {
    lemma_first_terminator(b);
}

/// The concatenation of a chunk sequence.
pub open spec fn concat_bytes(chunks: Seq<Seq<u8>>) -> Seq<u8>
    decreases chunks.len(),
{
    if chunks.len() == 0 {
        Seq::<u8>::empty()
    } else {
        chunks[0] + concat_bytes(chunks.drop_first())
    }
}

/// Concatenating one more chunk appends its bytes at the end.
pub proof fn lemma_concat_bytes_take_step(chunks: Seq<Seq<u8>>, i: int)
    requires
        0 <= i < chunks.len(),
    ensures
        concat_bytes(chunks.take(i + 1)) == concat_bytes(chunks.take(i)) + chunks[i],
    decreases i,
{
    if i == 0 {
        assert(chunks.take(1).drop_first() =~= Seq::<Seq<u8>>::empty());
        assert(chunks.take(0) =~= Seq::<Seq<u8>>::empty());
        assert(chunks.take(1)[0] == chunks[0]);
        assert(concat_bytes(chunks.take(1)) == chunks[0] + concat_bytes(
            Seq::<Seq<u8>>::empty(),
        ));
        assert(chunks[0] + Seq::<u8>::empty() =~= chunks[0]);
        assert(Seq::<u8>::empty() + chunks[0] =~= chunks[0]);
    } else {
        let t = chunks.drop_first();
        lemma_concat_bytes_take_step(t, i - 1);
        assert(chunks.take(i + 1).drop_first() =~= t.take(i));
        assert(chunks.take(i).drop_first() =~= t.take(i - 1));
        assert(t[i - 1] == chunks[i]);
        assert(concat_bytes(chunks.take(i + 1)) == chunks[0] + (concat_bytes(t.take(i - 1))
            + chunks[i]));
        assert(chunks[0] + (concat_bytes(t.take(i - 1)) + chunks[i]) =~= (chunks[0]
            + concat_bytes(t.take(i - 1))) + chunks[i]);
    }
}

/// Chunk boundaries carry no meaning: any two chunk sequences with the same
/// concatenation produce the same line segments — in particular, a
/// multi-byte character split across a chunk boundary is decoded only once
/// its line is complete, from the reassembled bytes.
pub proof fn lemma_chunking_irrelevant(c1: Seq<Seq<u8>>, c2: Seq<Seq<u8>>)
    requires
        concat_bytes(c1) == concat_bytes(c2),
    ensures
        spec_lines(concat_bytes(c1)) == spec_lines(concat_bytes(c2)),
{
}

/// The position of the first line segment that is not valid UTF-8, if any.
pub open spec fn first_invalid_line(segs: Seq<Seq<u8>>) -> Option<int>
    decreases segs.len(),
{
    if segs.len() == 0 {
        None
    } else if !valid_utf8(segs[0]) {
        Some(0int)
    } else {
        match first_invalid_line(segs.drop_first()) {
            Some(i) => Some(i + 1),
            None => None,
        }
    }
}

/// `first_invalid_line` finds exactly the first segment that fails to
/// decode.
pub proof fn lemma_first_invalid_line(segs: Seq<Seq<u8>>)
    ensures
        match first_invalid_line(segs) {
            Some(i) => 0 <= i < segs.len() && !valid_utf8(segs[i]) && forall|j: int|
                0 <= j < i ==> valid_utf8(#[trigger] segs[j]),
            None => forall|j: int| 0 <= j < segs.len() ==> valid_utf8(#[trigger] segs[j]),
        },
    decreases segs.len(),
{
    if segs.len() == 0 {
    } else if !valid_utf8(segs[0]) {
    } else {
        let t = segs.drop_first();
        lemma_first_invalid_line(t);
        assert(forall|j: int| 0 <= j < t.len() ==> t[j] == #[trigger] segs[j + 1]);
        match first_invalid_line(t) {
            Some(i) => {
                assert(first_invalid_line(segs) == Some(i + 1));
                assert(segs[i + 1] == t[i]);
                assert forall|j: int| 0 <= j < i + 1 implies valid_utf8(#[trigger] segs[j]) by {
                    if j > 0 {
                        assert(valid_utf8(t[j - 1]));
                    }
                }
            },
            None => {
                assert forall|j: int| 0 <= j < segs.len() implies valid_utf8(
                    #[trigger] segs[j],
                ) by {
                    if j > 0 {
                        assert(valid_utf8(t[j - 1]));
                    }
                }
            },
        }
    }
}

/// The decoded text of each line segment.
pub open spec fn spec_decoded_lines(segs: Seq<Seq<u8>>) -> Seq<Seq<char>> {
    Seq::new(segs.len(), |k: int| decode_utf8(segs[k]))
}

/// The line splitter: a private byte accumulator that holds exactly the
/// bytes received since the last emitted line.
///
/// Chunks are appended verbatim with [`Lines::push_chunk`]; complete lines
/// are pulled with [`Lines::next_line`]. Nothing is decoded before a whole
/// line, terminator included, sits in the buffer.
#[derive(Debug)]
pub struct Lines {
    buffer: Vec<u8>,
}

impl View for Lines {
    type V = Seq<u8>;

    /// The buffered bytes, oldest first.
    closed spec fn view(&self) -> Seq<u8> {
        self.buffer@
    }
}

impl Lines {
    /// A splitter with an empty buffer.
    pub fn new() -> (r: Lines)
        ensures
            r@ =~= Seq::<u8>::empty(),
    {
        Lines { buffer: Vec::new() }
    }

    /// Appends one chunk's bytes to the buffer verbatim; nothing is decoded
    /// here.
    pub fn push_chunk(&mut self, chunk: &[u8])
        ensures
            final(self)@ == old(self)@ + chunk@,
    {
        self.buffer.extend_from_slice(chunk);
    }

    /// Pulls the next complete line out of the buffer.
    ///
    /// If the buffer holds a terminator, the bytes up to and including the
    /// first one leave the buffer and the line is decoded as UTF-8:
    /// `Ok(Some(line))` with the terminator stripped on success, the decode
    /// error carrying the raw bytes otherwise (the buffer is advanced either
    /// way). With no terminator buffered, `Ok(None)`: the caller decides
    /// whether more chunks can be pushed or the stream has ended — an
    /// unterminated remainder is never surfaced as a line.
    pub fn next_line(&mut self) -> (r: Result<Option<String>, Error>)
        ensures
            ({
                let b = old(self)@;
                match first_terminator(b) {
                    None => final(self)@ == b && match r {
                        Ok(opt) => opt is None,
                        Err(_) => false,
                    },
                    Some(i) => {
                        let seg = b.take(i);
                        final(self)@ == b.skip(i + 1) && if valid_utf8(seg) {
                            match r {
                                Ok(Some(line)) => line@ == decode_utf8(seg),
                                _ => false,
                            }
                        } else {
                            match r {
                                Err(e) => e@ == ErrorView::Utf8(seg),
                                _ => false,
                            }
                        }
                    },
                }
            }),
    {
        proof {
            lemma_first_terminator(self@);
        }
        let n = self.buffer.len();
        let mut i: usize = 0;
        while i < n && self.buffer[i] != LINE_TERMINATOR
            invariant
                n == self.buffer@.len(),
                0 <= i <= n,
                forall|j: int| 0 <= j < i ==> self.buffer@[j] != LINE_TERMINATOR,
            decreases n - i,
        {
            i += 1;
        }
        if i == n {
            return Ok(None);
        }
        let tail = self.buffer.split_off(i + 1);
        let mut seg = tail;
        core::mem::swap(&mut self.buffer, &mut seg);
        seg.pop();
        proof {
            let b = old(self)@;
            assert(seg@ =~= b.take(i as int));
            assert(self.buffer@ =~= b.skip(i + 1));
        }
        match string_from_utf8(seg) {
            Ok(line) => Ok(Some(line)),
            Err(raw) => Err(Error::Utf8(raw)),
        }
    }
}

/// Splits the concatenation of `chunks` into its complete lines, each
/// decoded as UTF-8.
///
/// Exactly the terminator-delimited segments come back, in order and with
/// terminators stripped; an unterminated remainder is never yielded. The
/// first segment that is not valid UTF-8, if any, fails the whole call with
/// a decode error carrying its raw bytes.
pub fn split_lines(chunks: &Vec<Vec<u8>>) -> (r: Result<Vec<String>, Error>)
    ensures
        ({
            let segs = spec_lines(concat_bytes(chunks.deep_view()));
            match first_invalid_line(segs) {
                None => match r {
                    Ok(ls) => ls.deep_view() == spec_decoded_lines(segs),
                    Err(_) => false,
                },
                Some(k) => match r {
                    Ok(_) => false,
                    Err(e) => e@ == ErrorView::Utf8(segs[k]),
                },
            }
        }),
{
    let ghost all_chunks = chunks.deep_view();
    let mut splitter = Lines::new();
    let mut c: usize = 0;
    while c < chunks.len()
        invariant
            all_chunks == chunks.deep_view(),
            all_chunks.len() == chunks@.len(),
            0 <= c <= chunks@.len(),
            splitter@ == concat_bytes(all_chunks.take(c as int)),
        decreases chunks@.len() - c,
    {
        proof {
            lemma_concat_bytes_take_step(all_chunks, c as int);
            assert(all_chunks[c as int] == chunks@[c as int]@);
        }
        splitter.push_chunk(chunks[c].as_slice());
        c += 1;
    }
    proof {
        assert(all_chunks.take(all_chunks.len() as int) =~= all_chunks);
    }
    let ghost full = concat_bytes(all_chunks);
    let ghost segs = spec_lines(full);
    proof {
        assert(segs.skip(0) =~= segs);
    }
    let mut lines: Vec<String> = Vec::new();
    loop
        invariant
            segs == spec_lines(concat_bytes(chunks.deep_view())),
            lines@.len() <= segs.len(),
            spec_lines(splitter@) =~= segs.skip(lines@.len() as int),
            forall|j: int|
                0 <= j < lines@.len() ==> valid_utf8(#[trigger] segs[j]) && lines@[j]@
                    == decode_utf8(segs[j]),
        decreases splitter@.len(),
    {
        let ghost done = lines@.len() as int;
        let ghost buf = splitter@;
        proof {
            lemma_first_terminator(buf);
        }
        match splitter.next_line() {
            Ok(Some(line)) => {
                proof {
                    let i = first_terminator(buf)->Some_0;
                    assert(spec_lines(buf) == seq![buf.take(i)] + spec_lines(buf.skip(i + 1)));
                    assert(spec_lines(buf)[0] == buf.take(i));
                    assert(segs.skip(done)[0] == segs[done]);
                    assert(segs[done] == buf.take(i));
                    assert(spec_lines(splitter@) =~= segs.skip(done + 1)) by {
                        assert(spec_lines(buf).drop_first() =~= spec_lines(buf.skip(i + 1)));
                        assert(segs.skip(done).drop_first() =~= segs.skip(done + 1));
                    }
                }
                lines.push(line);
            },
            Ok(None) => {
                proof {
                    assert(spec_lines(buf) =~= Seq::<Seq<u8>>::empty());
                    assert(segs.skip(done).len() == 0);
                    assert(lines@.len() == segs.len());
                    lemma_first_invalid_line(segs);
                    assert(first_invalid_line(segs) is None);
                    assert(lines.deep_view() =~= spec_decoded_lines(segs));
                }
                return Ok(lines);
            },
            Err(e) => {
                proof {
                    let i = first_terminator(buf)->Some_0;
                    assert(spec_lines(buf) == seq![buf.take(i)] + spec_lines(buf.skip(i + 1)));
                    assert(spec_lines(buf)[0] == buf.take(i));
                    assert(segs.skip(done)[0] == segs[done]);
                    assert(segs[done] == buf.take(i));
                    assert(!valid_utf8(segs[done]));
                    lemma_first_invalid_line(segs);
                    assert(first_invalid_line(segs) == Some(done));
                }
                return Err(e);
            },
        }
    }
}

/// Ghost image of a [`Timeline`]: its buffered bytes and its decoder state.
pub struct TimelineView {
    pub buffer: Seq<u8>,
    pub state: DecoderState,
}

/// What one pull of the pipeline yields for a given state and buffer: the
/// first event decodable from the buffered complete lines, the need for more
/// input once the complete lines are exhausted, or the first failure —
/// together with the state and the bytes left behind.
pub enum PollView {
    Event(EventView, DecoderState, Seq<u8>),
    NeedInput(DecoderState, Seq<u8>),
    Failed(ErrorView, DecoderState, Seq<u8>),
}

/// One pull of the pipeline: complete lines leave the buffer one at a time
/// and run through [`spec_step`] until a line emits an event, fails, or no
/// complete line is left.
pub open spec fn spec_poll(state: DecoderState, b: Seq<u8>) -> PollView
    decreases b.len(),
    via spec_poll_decreases
{
    match first_terminator(b) {
        None => PollView::NeedInput(state, b),
        Some(i) => {
            let seg = b.take(i);
            let rest = b.skip(i + 1);
            if !valid_utf8(seg) {
                PollView::Failed(ErrorView::Utf8(seg), state, rest)
            } else {
                let res = spec_step(state, decode_utf8(seg));
                match res.1 {
                    StepView::Emit(ev) => PollView::Event(ev, res.0, rest),
                    StepView::Skip => spec_poll(res.0, rest),
                    StepView::Fail(e) => PollView::Failed(e, res.0, rest),
                }
            }
        },
    }
}

#[via_fn]
proof fn spec_poll_decreases(state: DecoderState, b: Seq<u8>) {
    lemma_first_terminator(b);
}

/// The event decoder over a line splitter: a two-state protocol machine
/// that turns the split lines into typed events.
#[derive(Debug)]
pub struct Timeline {
    lines: Lines,
    state: DecoderState,
}

impl View for Timeline {
    type V = TimelineView;

    /// The buffered bytes of the line splitter and the decoder's state.
    closed spec fn view(&self) -> TimelineView {
        TimelineView { buffer: self.lines@, state: self.state }
    }
}

impl Timeline {
    /// A decoder over the given line splitter, starting between frames.
    pub fn from_lines(lines: Lines) -> (r: Timeline)
        ensures
            r@.buffer == lines@,
            r@.state == DecoderState::Idle,
    {
        Timeline { lines, state: DecoderState::Idle }
    }

    /// The decoder's current protocol state.
    pub fn state(&self) -> (r: DecoderState)
        ensures
            r == self@.state,
    {
        self.state
    }

    /// Appends one chunk's bytes to the line buffer verbatim.
    pub fn push_chunk(&mut self, chunk: &[u8])
        ensures
            final(self)@.buffer == old(self)@.buffer + chunk@,
            final(self)@.state == old(self)@.state,
    {
        self.lines.push_chunk(chunk);
    }

    /// Runs one line through the decoder, per [`spec_step`]: `Ok(Some(e))`
    /// when the line completes a frame or is a heartbeat, `Ok(None)` when it
    /// is consumed without an event, and the error the line earns otherwise.
    pub fn step_line(&mut self, line: &str) -> (r: Result<Option<Event>, Error>)
        ensures
            ({
                let res = spec_step(old(self)@.state, line@);
                final(self)@.state == res.0 && final(self)@.buffer == old(self)@.buffer && match res.1 {
                    StepView::Emit(ev) => match r {
                        Ok(Some(e)) => e@ == ev,
                        _ => false,
                    },
                    StepView::Skip => match r {
                        Ok(opt) => opt is None,
                        Err(_) => false,
                    },
                    StepView::Fail(ev) => match r {
                        Err(e) => e@ == ev,
                        _ => false,
                    },
                }
            }),
    {
        if line.unicode_len() >= 1 && line.get_char(0) == ':' {
            return Ok(Some(Event::Heartbeat));
        }
        match self.state {
            DecoderState::Idle => {
                if has_prefix(line, "event: ") {
                    let k = "event: ".unicode_len();
                    let name = suffix_from(line, k);
                    if str_eq(name.as_str(), "update") {
                        self.state = DecoderState::Pending(EventType::Update);
                        Ok(None)
                    } else if str_eq(name.as_str(), "delete") {
                        self.state = DecoderState::Pending(EventType::Delete);
                        Ok(None)
                    } else if str_eq(name.as_str(), "notification") {
                        self.state = DecoderState::Pending(EventType::Notification);
                        Ok(None)
                    } else {
                        Err(Error::EventType(name))
                    }
                } else if line.is_empty() {
                    Ok(None)
                } else {
                    Err(Error::StreamingState("event".to_owned(), line.to_owned()))
                }
            },
            DecoderState::Pending(t) => {
                if has_prefix(line, "data: ") {
                    let k = "data: ".unicode_len();
                    let payload = suffix_from(line, k);
                    self.state = DecoderState::Idle;
                    match t {
                        EventType::Update => {
                            if json_object_valid(payload.as_str()) {
                                Ok(Some(Event::Update(payload)))
                            } else {
                                Err(Error::Deserialize(payload))
                            }
                        },
                        EventType::Notification => {
                            if json_object_valid(payload.as_str()) {
                                Ok(Some(Event::Notification(payload)))
                            } else {
                                Err(Error::Deserialize(payload))
                            }
                        },
                        EventType::Delete => Ok(Some(Event::Delete(payload))),
                    }
                } else {
                    self.state = DecoderState::Idle;
                    Err(Error::StreamingState("data".to_owned(), line.to_owned()))
                }
            },
        }
    }

    /// Pulls the next event out of the buffered bytes, per [`spec_poll`].
    ///
    /// Complete lines are consumed one at a time until one emits an event
    /// (`Ok(Some(e))`), a line fails (the error, with the decoder reset as
    /// [`spec_step`] says), or no complete line is left (`Ok(None)`: push
    /// more chunks and pull again, or stop — at the end of the source an
    /// unterminated remainder and a still-pending declaration are simply
    /// dropped).
    pub fn poll_event(&mut self) -> (r: Result<Option<Event>, Error>)
        ensures
            ({
                let p = spec_poll(old(self)@.state, old(self)@.buffer);
                match p {
                    PollView::Event(ev, st, rest) => final(self)@.state == st
                        && final(self)@.buffer == rest && match r {
                        Ok(Some(e)) => e@ == ev,
                        _ => false,
                    },
                    PollView::NeedInput(st, rest) => final(self)@.state == st
                        && final(self)@.buffer == rest && match r {
                        Ok(opt) => opt is None,
                        Err(_) => false,
                    },
                    PollView::Failed(e, st, rest) => final(self)@.state == st
                        && final(self)@.buffer == rest && match r {
                        Err(er) => er@ == e,
                        _ => false,
                    },
                }
            }),
    {
        loop
            invariant
                spec_poll(self@.state, self@.buffer) == spec_poll(
                    old(self)@.state,
                    old(self)@.buffer,
                ),
            decreases self@.buffer.len(),
        {
            let ghost buf = self@.buffer;
            proof {
                lemma_first_terminator(buf);
            }
            match self.lines.next_line() {
                Ok(Some(line)) => {
                    match self.step_line(line.as_str()) {
                        Ok(Some(e)) => {
                            return Ok(Some(e));
                        },
                        Ok(None) => {},
                        Err(e) => {
                            return Err(e);
                        },
                    }
                },
                Ok(None) => {
                    return Ok(None);
                },
                Err(e) => {
                    return Err(e);
                },
            }
        }
    }
}

/// What a whole line sequence decodes to, starting from the given state: the
/// events of its frames and heartbeats in arrival order and the final state,
/// or the first failure.
pub open spec fn spec_decode_all(state: DecoderState, lines: Seq<Seq<char>>) -> Result<
    (Seq<EventView>, DecoderState),
    ErrorView,
>
    decreases lines.len(),
{
    if lines.len() == 0 {
        Ok((Seq::<EventView>::empty(), state))
    } else {
        let res = spec_step(state, lines[0]);
        match res.1 {
            StepView::Fail(e) => Err(e),
            StepView::Emit(ev) => match spec_decode_all(res.0, lines.drop_first()) {
                Ok(p) => Ok((seq![ev] + p.0, p.1)),
                Err(e) => Err(e),
            },
            StepView::Skip => spec_decode_all(res.0, lines.drop_first()),
        }
    }
}

/// [`spec_decode_all`] with events already accumulated in front.
pub open spec fn spec_decode_cont(
    acc: Seq<EventView>,
    state: DecoderState,
    rest: Seq<Seq<char>>,
) -> Result<(Seq<EventView>, DecoderState), ErrorView> {
    match spec_decode_all(state, rest) {
        Ok(p) => Ok((acc + p.0, p.1)),
        Err(e) => Err(e),
    }
}

/// Decodes a finite line sequence from the initial state: all its events in
/// order, or the first failure, per [`spec_decode_all`].
pub fn decode_lines(lines: &Vec<String>) -> (r: Result<Vec<Event>, Error>)
    ensures
        ({
            match spec_decode_all(DecoderState::Idle, lines.deep_view()) {
                Ok(p) => match r {
                    Ok(evs) => evs.deep_view() == p.0,
                    Err(_) => false,
                },
                Err(e) => match r {
                    Ok(_) => false,
                    Err(er) => er@ == e,
                },
            }
        }),
{
    let ghost all = lines.deep_view();
    let mut decoder = Timeline::from_lines(Lines::new());
    let mut events: Vec<Event> = Vec::new();
    let mut i: usize = 0;
    proof {
        assert(all.skip(0) =~= all);
        assert(events.deep_view() + spec_decode_all(DecoderState::Idle, all)->Ok_0.0
            =~= spec_decode_all(DecoderState::Idle, all)->Ok_0.0) by {
            assert(events.deep_view() =~= Seq::<EventView>::empty());
        }
    }
    while i < lines.len()
        invariant
            all == lines.deep_view(),
            all.len() == lines@.len(),
            0 <= i <= lines@.len(),
            spec_decode_cont(events.deep_view(), decoder@.state, all.skip(i as int))
                == spec_decode_all(DecoderState::Idle, all),
        decreases lines@.len() - i,
    {
        let ghost st = decoder@.state;
        let ghost acc = events.deep_view();
        proof {
            assert(all.skip(i as int)[0] == all[i as int]);
            assert(all[i as int] == lines@[i as int]@);
            assert(all.skip(i as int).drop_first() =~= all.skip(i as int + 1));
        }
        match decoder.step_line(lines[i].as_str()) {
            Ok(Some(e)) => {
                proof {
                    let ev = spec_step(st, all[i as int]).1->Emit_0;
                    match spec_decode_all(decoder@.state, all.skip(i as int + 1)) {
                        Ok(p) => {
                            assert(acc + (seq![ev] + p.0) =~= (acc + seq![ev]) + p.0);
                        },
                        Err(_) => {},
                    }
                    assert(acc + seq![e@] =~= acc.push(e@));
                }
                events.push(e);
                proof {
                    assert(events.deep_view() =~= acc.push(
                        spec_step(st, all[i as int]).1->Emit_0,
                    ));
                }
            },
            Ok(None) => {},
            Err(e) => {
                return Err(e);
            },
        }
        i += 1;
    }
    proof {
        assert(all.skip(all.len() as int) =~= Seq::<Seq<char>>::empty());
        match spec_decode_all(DecoderState::Idle, all) {
            Ok(p) => {
                assert(events.deep_view() + Seq::<EventView>::empty() =~= events.deep_view());
            },
            Err(_) => {},
        }
    }
    Ok(events)
}

} // verus!
