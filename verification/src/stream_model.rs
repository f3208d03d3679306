//! The mathematical model of the streaming decoder: its state, and what each
//! piece of input does to it.
//!
//! The decoder in [`crate::stream`] is specified against this model, and the
//! laws in [`crate::stream_laws`] are proved of it.

use crate::json::parsed_json;
use crate::types::{assemble, ContentBlockView, ResponseView, Usage};
use crate::wire::{stream_event_of, StreamEventView, ToolCallDeltaView};
use vstd::prelude::*;
use vstd::utf8::{decode_utf8, valid_utf8};

verus! {

/// A tool call that the stream has opened and not yet closed.
#[derive(Debug, Clone, PartialEq, Eq)]
pub struct PartialToolCall {
    pub id: Option<String>,
    pub name: Option<String>,
    pub arguments: String,
}

/// The mathematical value of a [`PartialToolCall`].
pub struct PartialToolCallView {
    pub id: Option<Seq<char>>,
    pub name: Option<Seq<char>>,
    pub arguments: Seq<char>,
}

impl DeepView for PartialToolCall {
    type V = PartialToolCallView;

    open spec fn deep_view(&self) -> PartialToolCallView {
        PartialToolCallView {
            id: self.id.deep_view(),
            name: self.name.deep_view(),
            arguments: self.arguments@,
        }
    }
}

/// Why a response could not be decoded. Such a failure is final: the request
/// is not sent again on its account.
#[derive(Debug, Clone, PartialEq, Eq)]
pub enum DecodeError {
    /// A chunk of the stream is not valid UTF-8.
    InvalidUtf8,
    /// A tool call was closed before the stream had named its function.
    MissingToolName,
    /// A tool call was closed without an identifier.
    MissingToolId,
    /// The arguments of a tool call are not a JSON document; the text says why.
    InvalidToolArguments(String),
    /// The body of a response is not a JSON document of the expected shape;
    /// the text says why.
    MalformedBody(String),
}

/// The mathematical value of a [`DecodeError`].
pub enum DecodeErrorView {
    InvalidUtf8,
    MissingToolName,
    MissingToolId,
    InvalidToolArguments(Seq<char>),
    MalformedBody(Seq<char>),
}

impl DeepView for DecodeError {
    type V = DecodeErrorView;

    open spec fn deep_view(&self) -> DecodeErrorView {
        match self {
            DecodeError::InvalidUtf8 => DecodeErrorView::InvalidUtf8,
            DecodeError::MissingToolName => DecodeErrorView::MissingToolName,
            DecodeError::MissingToolId => DecodeErrorView::MissingToolId,
            DecodeError::InvalidToolArguments(why) => DecodeErrorView::InvalidToolArguments(why@),
            DecodeError::MalformedBody(why) => DecodeErrorView::MalformedBody(why@),
        }
    }
}

/// The prefix that marks a line of the stream as carrying data.
pub open spec fn data_prefix() -> Seq<char> {
    seq!['d', 'a', 't', 'a', ':', ' ']
}

/// The sentinel payload that ends a stream.
pub open spec fn done_marker() -> Seq<char> {
    seq!['[', 'D', 'O', 'N', 'E', ']']
}

/// The payload of a data line; `None` for a line without the data prefix.
pub open spec fn data_payload(line: Seq<char>) -> Option<Seq<char>> {
    if line.len() >= 6 && line.take(6) == data_prefix() {
        Some(line.skip(6))
    } else {
        None
    }
}

/// The event that a line of the stream carries: the line is a data line, its
/// payload is not the end sentinel, and the payload is a JSON document with
/// the shape of an event. Every other line carries none.
pub open spec fn line_event(line: Seq<char>) -> Option<StreamEventView> {
    match data_payload(line) {
        Some(payload) => if payload == done_marker() {
            None
        } else {
            match parsed_json(payload) {
                Ok(v) => stream_event_of(v),
                Err(_) => None,
            }
        },
        None => None,
    }
}

/// The completed block that an open tool call folds into: it needs a name, an
/// identifier, and arguments that read as a JSON document.
pub open spec fn finalize_tool(p: PartialToolCallView) -> Result<
    ContentBlockView,
    DecodeErrorView,
> {
    match (p.name, p.id) {
        (None, _) => Err(DecodeErrorView::MissingToolName),
        (Some(_), None) => Err(DecodeErrorView::MissingToolId),
        (Some(name), Some(id)) => match parsed_json(p.arguments) {
            Ok(input) => Ok(ContentBlockView::ToolUse { id, name, input }),
            Err(why) => Err(DecodeErrorView::InvalidToolArguments(why)),
        },
    }
}

/// The state of the decoder as a mathematical value.
///
/// `emitted` lists the text fragments handed to the caller so far, and
/// `failure` holds the decode error that stopped the decoder, if one did.
/// Once `failure` is set no further input changes the state.
pub struct StreamModel {
    pub line: Seq<char>,
    pub text: Seq<char>,
    pub open: Option<PartialToolCallView>,
    pub completed: Seq<ContentBlockView>,
    pub usage: Option<Usage>,
    pub emitted: Seq<Seq<char>>,
    pub failure: Option<DecodeErrorView>,
}

impl StreamModel {
    /// The state before any input.
    pub open spec fn initial() -> StreamModel {
        StreamModel {
            line: Seq::empty(),
            text: Seq::empty(),
            open: None,
            completed: Seq::empty(),
            usage: None,
            emitted: Seq::empty(),
            failure: None,
        }
    }

    /// The state before any input, of a decoder whose sink has already
    /// received `emitted`.
    pub open spec fn starting(emitted: Seq<Seq<char>>) -> StreamModel {
        StreamModel { emitted, ..StreamModel::initial() }
    }

    /// This state, stopped by `e`.
    pub open spec fn fail(self, e: DecodeErrorView) -> StreamModel {
        StreamModel { failure: Some(e), ..self }
    }

    /// Folds the open tool call, if there is one, into a completed block.
    pub open spec fn close_open(self) -> StreamModel {
        if self.failure is Some {
            self
        } else {
            match self.open {
                None => self,
                Some(p) => match finalize_tool(p) {
                    Ok(block) => StreamModel {
                        open: None,
                        completed: self.completed.push(block),
                        ..self
                    },
                    Err(e) => self.fail(e),
                },
            }
        }
    }

    /// Merges one tool-call update. An update with an identifier closes the
    /// open call and opens a new one; an update without one appends its
    /// argument fragment to the open call, and does nothing if none is open.
    /// An update without a function part is ignored.
    pub open spec fn apply_tool_delta(self, d: ToolCallDeltaView) -> StreamModel {
        if self.failure is Some {
            self
        } else {
            match d.function {
                None => self,
                Some(f) => if d.id is Some {
                    let closed = self.close_open();
                    if closed.failure is Some {
                        closed
                    } else {
                        StreamModel {
                            open: Some(
                                PartialToolCallView {
                                    id: d.id,
                                    name: f.name,
                                    arguments: match f.arguments {
                                        Some(a) => a,
                                        None => Seq::empty(),
                                    },
                                },
                            ),
                            ..closed
                        }
                    }
                } else {
                    match (self.open, f.arguments) {
                        (Some(p), Some(a)) => StreamModel {
                            open: Some(
                                PartialToolCallView { arguments: p.arguments + a, ..p },
                            ),
                            ..self
                        },
                        _ => self,
                    }
                },
            }
        }
    }

    /// Merges a list of tool-call updates, first to last.
    pub open spec fn apply_tool_deltas(self, ds: Seq<ToolCallDeltaView>) -> StreamModel
        decreases ds.len(),
    {
        if ds.len() == 0 {
            self
        } else {
            self.apply_tool_deltas(ds.drop_last()).apply_tool_delta(ds.last())
        }
    }

    /// Hands the text fragment `t` to the caller and appends it to the text.
    pub open spec fn emit(self, t: Seq<char>) -> StreamModel {
        StreamModel { emitted: self.emitted.push(t), text: self.text + t, ..self }
    }

    /// Records a usage report, which replaces any earlier one.
    pub open spec fn record_usage(self, usage: Option<Usage>) -> StreamModel {
        if self.failure is Some || usage is None {
            self
        } else {
            StreamModel { usage, ..self }
        }
    }

    /// Merges one event: its text fragment, then its tool-call updates, then
    /// its finish marker, which closes the open tool call, then its usage.
    pub open spec fn apply_event(self, e: StreamEventView) -> StreamModel {
        if self.failure is Some {
            self
        } else {
            let with_text = match e.content {
                Some(t) => self.emit(t),
                None => self,
            };
            let with_tools = with_text.apply_tool_deltas(e.tool_calls);
            let closed = if e.finished {
                with_tools.close_open()
            } else {
                with_tools
            };
            closed.record_usage(e.usage)
        }
    }

    /// Decodes one complete line of the stream.
    pub open spec fn apply_line(self, line: Seq<char>) -> StreamModel {
        match line_event(line) {
            Some(e) => self.apply_event(e),
            None => self,
        }
    }

    /// Takes the line buffer as a complete line, if it is not empty.
    pub open spec fn flush_line(self) -> StreamModel {
        if self.failure is Some || self.line.len() == 0 {
            self
        } else {
            StreamModel { line: Seq::empty(), ..self }.apply_line(self.line)
        }
    }

    /// Consumes one character: a newline completes the buffered line, any
    /// other character joins it.
    pub open spec fn feed_char(self, c: char) -> StreamModel {
        if self.failure is Some {
            self
        } else if c == '\n' {
            self.flush_line()
        } else {
            StreamModel { line: self.line.push(c), ..self }
        }
    }

    /// Consumes a run of characters, first to last.
    pub open spec fn feed(self, chars: Seq<char>) -> StreamModel
        decreases chars.len(),
    {
        if chars.len() == 0 {
            self
        } else {
            self.feed(chars.drop_last()).feed_char(chars.last())
        }
    }

    /// Consumes one chunk of the stream, which must be valid UTF-8 by itself.
    pub open spec fn push_chunk(self, bytes: Seq<u8>) -> StreamModel {
        if self.failure is Some {
            self
        } else if !valid_utf8(bytes) {
            self.fail(DecodeErrorView::InvalidUtf8)
        } else {
            self.feed(decode_utf8(bytes))
        }
    }

    /// Consumes a list of chunks, first to last.
    pub open spec fn push_chunks(self, chunks: Seq<Seq<u8>>) -> StreamModel
        decreases chunks.len(),
    {
        if chunks.len() == 0 {
            self
        } else {
            self.push_chunks(chunks.drop_last()).push_chunk(chunks.last())
        }
    }

    /// Ends the stream: an unterminated last line is decoded, and a tool call
    /// that is still open is closed.
    pub open spec fn finish(self) -> StreamModel {
        self.flush_line().close_open()
    }

    /// The response that this state amounts to.
    pub open spec fn response(self) -> ResponseView {
        assemble(self.text, self.completed, self.usage)
    }
}

/// What decoding a whole stream gives when the caller accepts every fragment:
/// the response, or the error that stopped the decoder.
pub open spec fn stream_response(chunks: Seq<Seq<u8>>) -> Result<ResponseView, DecodeErrorView> {
    let end = StreamModel::initial().push_chunks(chunks).finish();
    match end.failure {
        Some(e) => Err(e),
        None => Ok(end.response()),
    }
}

/// Whether `a` is the beginning of `b`.
pub open spec fn is_prefix(a: Seq<Seq<char>>, b: Seq<Seq<char>>) -> bool {
    a.len() <= b.len() && b.take(a.len() as int) == a
}

/// Once a prefix of the updates has failed, the remaining ones change nothing.
pub proof fn lemma_tool_deltas_failure_sticks(s: StreamModel, ds: Seq<ToolCallDeltaView>, k: int)
    requires
        0 <= k <= ds.len(),
        s.apply_tool_deltas(ds.take(k)).failure is Some,
    ensures
        s.apply_tool_deltas(ds) == s.apply_tool_deltas(ds.take(k)),
    decreases ds.len() - k,
{
    if k == ds.len() {
        assert(ds.take(k) =~= ds);
    } else {
        assert(ds.take(k + 1).drop_last() =~= ds.take(k));
        lemma_tool_deltas_failure_sticks(s, ds, k + 1);
    }
}

/// Merging tool-call updates emits nothing.
pub proof fn lemma_tool_deltas_keep_emitted(s: StreamModel, ds: Seq<ToolCallDeltaView>)
    ensures
        s.apply_tool_deltas(ds).emitted == s.emitted,
        s.apply_tool_deltas(ds).text == s.text,
    decreases ds.len(),
{
    if ds.len() > 0 {
        lemma_tool_deltas_keep_emitted(s, ds.drop_last());
    }
}

/// The beginning of a beginning is a beginning.
pub proof fn lemma_prefix_chain(a: Seq<Seq<char>>, b: Seq<Seq<char>>, c: Seq<Seq<char>>)
    requires
        is_prefix(a, b),
        is_prefix(b, c),
    ensures
        is_prefix(a, c),
{
    assert(c.take(a.len() as int) =~= b.take(a.len() as int)) by {
        assert forall|i: int| 0 <= i < a.len() implies c[i] == b[i] by {
            assert(c.take(b.len() as int)[i] == b[i]);
        }
    }
}

/// Merging an event keeps the fragments emitted so far, and adds at most the
/// event's own.
pub proof fn lemma_event_extends(s: StreamModel, e: StreamEventView)
    ensures
        is_prefix(s.emitted, s.apply_event(e).emitted),
        s.failure is None && e.content is Some ==> s.apply_event(e).emitted == s.emitted.push(
            e.content->0,
        ),
        s.failure is Some || e.content is None ==> s.apply_event(e).emitted == s.emitted,
{
    let with_text = match e.content {
        Some(t) => s.emit(t),
        None => s,
    };
    lemma_tool_deltas_keep_emitted(with_text, e.tool_calls);
    assert(with_text.emitted.take(s.emitted.len() as int) =~= s.emitted);
    assert(s.emitted.take(s.emitted.len() as int) =~= s.emitted);
}

/// Consuming a character keeps the fragments emitted so far.
pub proof fn lemma_feed_char_extends(s: StreamModel, c: char)
    ensures
        is_prefix(s.emitted, s.feed_char(c).emitted),
{
    assert(s.emitted.take(s.emitted.len() as int) =~= s.emitted);
    if s.failure is None && c == '\n' && s.line.len() > 0 {
        let cleared = StreamModel { line: Seq::empty(), ..s };
        match line_event(s.line) {
            Some(e) => {
                lemma_event_extends(cleared, e);
            },
            None => {},
        }
    }
}

/// What the decoder has emitted after a part of its input is the beginning of
/// what it has emitted after the whole; and once a part has failed, the rest
/// changes nothing.
pub proof fn lemma_feed_prefix(s: StreamModel, chars: Seq<char>, k: int)
    requires
        0 <= k <= chars.len(),
    ensures
        is_prefix(s.feed(chars.take(k)).emitted, s.feed(chars).emitted),
        s.feed(chars.take(k)).failure is Some ==> s.feed(chars) == s.feed(chars.take(k)),
    decreases chars.len() - k,
{
    if k == chars.len() {
        assert(chars.take(k) =~= chars);
        let all = s.feed(chars).emitted;
        assert(all.take(all.len() as int) =~= all);
    } else {
        assert(chars.take(k + 1).drop_last() =~= chars.take(k));
        lemma_feed_char_extends(s.feed(chars.take(k)), chars[k]);
        lemma_feed_prefix(s, chars, k + 1);
        lemma_prefix_chain(
            s.feed(chars.take(k)).emitted,
            s.feed(chars.take(k + 1)).emitted,
            s.feed(chars).emitted,
        );
    }
}

/// Consuming a chunk keeps the fragments emitted so far.
pub proof fn lemma_push_chunk_extends(s: StreamModel, bytes: Seq<u8>)
    ensures
        is_prefix(s.emitted, s.push_chunk(bytes).emitted),
{
    assert(s.emitted.take(s.emitted.len() as int) =~= s.emitted);
    if s.failure is None && valid_utf8(bytes) {
        let chars = decode_utf8(bytes);
        assert(chars.take(0) =~= Seq::<char>::empty());
        lemma_feed_prefix(s, chars, 0);
    }
}

/// The same for whole chunks.
pub proof fn lemma_push_chunks_prefix(s: StreamModel, chunks: Seq<Seq<u8>>, k: int)
    requires
        0 <= k <= chunks.len(),
    ensures
        is_prefix(s.push_chunks(chunks.take(k)).emitted, s.push_chunks(chunks).emitted),
        s.push_chunks(chunks.take(k)).failure is Some ==> s.push_chunks(chunks) == s.push_chunks(
            chunks.take(k),
        ),
    decreases chunks.len() - k,
{
    if k == chunks.len() {
        assert(chunks.take(k) =~= chunks);
        let all = s.push_chunks(chunks).emitted;
        assert(all.take(all.len() as int) =~= all);
    } else {
        assert(chunks.take(k + 1).drop_last() =~= chunks.take(k));
        lemma_push_chunk_extends(s.push_chunks(chunks.take(k)), chunks[k]);
        lemma_push_chunks_prefix(s, chunks, k + 1);
        lemma_prefix_chain(
            s.push_chunks(chunks.take(k)).emitted,
            s.push_chunks(chunks.take(k + 1)).emitted,
            s.push_chunks(chunks).emitted,
        );
    }
}

/// Ending a stream keeps the fragments emitted so far, and changes nothing
/// once the decoder has failed.
pub proof fn lemma_finish_extends(s: StreamModel)
    ensures
        is_prefix(s.emitted, s.finish().emitted),
        is_prefix(s.emitted, s.flush_line().emitted),
        s.finish().emitted == s.flush_line().emitted,
        s.failure is Some ==> s.finish() == s,
{
    assert(s.emitted.take(s.emitted.len() as int) =~= s.emitted);
    if s.failure is None && s.line.len() > 0 {
        let cleared = StreamModel { line: Seq::empty(), ..s };
        match line_event(s.line) {
            Some(e) => {
                lemma_event_extends(cleared, e);
            },
            None => {},
        }
    }
}

} // verus!
