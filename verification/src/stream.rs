//! The streaming decoder: rebuilds one assistant turn from the chunks of a
//! server-sent-event stream, handing each text fragment to the caller as it
//! arrives.
//!
//! Every contract here says that the decoder did what the model in
//! [`crate::stream_model`] says.

use crate::json::Json;
use crate::stream_model::{
    data_prefix, done_marker, finalize_tool, is_prefix, lemma_event_extends, lemma_feed_prefix,
    lemma_finish_extends, lemma_prefix_chain, lemma_push_chunks_prefix,
    lemma_tool_deltas_failure_sticks, lemma_tool_deltas_keep_emitted, DecodeError,
    DecodeErrorView, PartialToolCall, StreamModel,
};
use crate::text::chars_of;
use crate::types::{ContentBlock, ContentBlockView, LLMResponse, Usage};
use crate::wire::{decode_stream_event, StreamEvent, ToolCallDelta};
use vstd::prelude::*;
use vstd::utf8::{decode_utf8, valid_utf8};

verus! {

/// Where the decoder hands each text fragment as it arrives.
///
/// `received` is the list of fragments accepted so far. A sink that returns an
/// error refuses the fragment, which aborts the decoding; `refused` is the
/// fragment that was refused last.
pub trait TokenSink {
    /// What a refusal carries.
    type Failure;

    /// The fragments accepted so far, oldest first.
    spec fn received(&self) -> Seq<Seq<char>>;

    /// The fragment refused last, if one was refused.
    spec fn refused(&self) -> Option<Seq<char>>;

    /// Takes one fragment, or refuses it.
    fn emit(&mut self, text: &str) -> (taken: Result<(), Self::Failure>)
        ensures
            taken is Ok ==> final(self).received() == old(self).received().push(text@),
            taken is Ok ==> final(self).refused() == old(self).refused(),
            taken is Err ==> final(self).received() == old(self).received(),
            taken is Err ==> final(self).refused() == Some(text@),
    ;
}

/// A sink that keeps every fragment and refuses none.
#[derive(Debug, Clone, PartialEq, Eq)]
pub struct CollectingSink {
    pub tokens: Vec<String>,
}

impl CollectingSink {
    /// A sink that holds no fragment, and so has received nothing.
    pub fn new() -> (sink: CollectingSink)
        ensures
            sink.tokens@ == Seq::<String>::empty(),
            sink.received() == Seq::<Seq<char>>::empty(),
    {
        let tokens: Vec<String> = Vec::new();
        assert(tokens.deep_view() =~= Seq::empty());
        CollectingSink { tokens }
    }
}

impl TokenSink for CollectingSink {
    type Failure = ();

    open spec fn received(&self) -> Seq<Seq<char>> {
        self.tokens.deep_view()
    }

    open spec fn refused(&self) -> Option<Seq<char>> {
        None
    }

    fn emit(&mut self, text: &str) -> (taken: Result<(), ()>)
        ensures
            taken is Ok,
    {
        self.tokens.push(text.to_owned());
        assert(self.tokens.deep_view() =~= old(self).tokens.deep_view().push(text@));
        Ok(())
    }
}

/// A sink that hands every fragment to a callback, which refuses a fragment
/// by returning an error.
#[verifier::reject_recursive_types(E)]
#[verifier::reject_recursive_types(F)]
pub struct CallbackSink<E, F: Fn(&str) -> Result<(), E>> {
    callback: F,
    accepted: Ghost<Seq<Seq<char>>>,
    turned_down: Ghost<Option<Seq<char>>>,
    failure: core::marker::PhantomData<E>,
}

impl<E, F: Fn(&str) -> Result<(), E>> CallbackSink<E, F> {
    #[verifier::type_invariant]
    spec fn callable(self) -> bool {
        forall|text: &str| call_requires(self.callback, (text,))
    }

    /// The fragments that the callback has accepted, oldest first.
    pub closed spec fn accepted(&self) -> Seq<Seq<char>> {
        self.accepted@
    }

    /// The fragment that the callback has refused last, if it has refused one.
    pub closed spec fn turned_down(&self) -> Option<Seq<char>> {
        self.turned_down@
    }

    /// The callback that this sink hands the fragments to.
    pub closed spec fn callback(&self) -> F {
        self.callback
    }

    /// A sink around `callback`, which must take every text.
    pub fn new(callback: F) -> (sink: CallbackSink<E, F>)
        requires
            forall|text: &str| call_requires(callback, (text,)),
        ensures
            sink.accepted() == Seq::<Seq<char>>::empty(),
            sink.turned_down() is None,
            sink.callback() == callback,
    {
        CallbackSink {
            callback,
            accepted: Ghost(Seq::empty()),
            turned_down: Ghost(None),
            failure: core::marker::PhantomData,
        }
    }
}

impl<E, F: Fn(&str) -> Result<(), E>> TokenSink for CallbackSink<E, F> {
    type Failure = E;

    open spec fn received(&self) -> Seq<Seq<char>> {
        self.accepted()
    }

    open spec fn refused(&self) -> Option<Seq<char>> {
        self.turned_down()
    }

    /// Calls the callback on `text`, once, and counts the fragment as
    /// accepted if the callback returns no error. What is returned is what
    /// the callback returned for `text`.
    fn emit(&mut self, text: &str) -> (taken: Result<(), E>)
        ensures
            call_ensures(old(self).callback(), (text,), taken),
            final(self).callback() == old(self).callback(),
    {
        proof {
            use_type_invariant(&*self);
        }
        let taken = (self.callback)(text);
        proof {
            if taken is Ok {
                self.accepted@ = self.accepted@.push(text@);
            } else {
                self.turned_down@ = Some(text@);
            }
        }
        taken
    }
}

/// Why decoding a stream stopped: the stream could not be decoded, or the
/// caller's sink refused a fragment.
#[derive(Debug, Clone, PartialEq, Eq)]
pub enum StreamError<E> {
    Decode(DecodeError),
    Callback(E),
}

/// Calls `std::str::from_utf8`, which accepts exactly the byte strings that
/// are valid UTF-8 and reads them as the text they encode.
#[verifier::external_body]
fn utf8_text(bytes: &[u8]) -> (out: Option<&str>)
    ensures
        match out {
            Some(text) => valid_utf8(bytes@) && text@ == decode_utf8(bytes@),
            None => !valid_utf8(bytes@),
        },
{
    std::str::from_utf8(bytes).ok()
}

/// Calls `String::push`, which appends one character.
#[verifier::external_body]
fn push_char(text: &mut String, c: char)
    ensures
        final(text)@ == old(text)@.push(c),
{
    text.push(c)
}

/// Folds a tool call into a completed block. It needs a name, an identifier
/// and arguments that read as a JSON document.
pub fn build_tool_block(tool: PartialToolCall) -> (out: Result<ContentBlock, DecodeError>)
    ensures
        match out {
            Ok(block) => finalize_tool(tool.deep_view()) == Ok::<ContentBlockView, DecodeErrorView>(
                block.deep_view(),
            ),
            Err(e) => finalize_tool(tool.deep_view()) == Err::<ContentBlockView, DecodeErrorView>(
                e.deep_view(),
            ),
        },
{
    let PartialToolCall { id, name, arguments } = tool;
    let name = match name {
        Some(name) => name,
        None => { return Err(DecodeError::MissingToolName); },
    };
    let id = match id {
        Some(id) => id,
        None => { return Err(DecodeError::MissingToolId); },
    };
    match Json::parse(arguments.as_str()) {
        Ok(input) => Ok(ContentBlock::ToolUse { id, name, input }),
        Err(why) => Err(DecodeError::InvalidToolArguments(why)),
    }
}

/// The state of a decoder between two chunks of a stream.
#[derive(Debug, Clone, PartialEq, Eq)]
pub struct StreamAccumulator {
    pub line_buffer: String,
    pub text: String,
    pub current_tool: Option<PartialToolCall>,
    pub completed: Vec<ContentBlock>,
    pub usage: Option<Usage>,
}

/// Whether a sink that had received `before` stopped the decoding by refusing
/// a fragment: it has then received, beyond `before`, the fragments that the
/// model emits up to the refused one, and what it refused is the model's next
/// fragment.
pub open spec fn refused_within(
    emitted: Seq<Seq<char>>,
    before: Seq<Seq<char>>,
    received: Seq<Seq<char>>,
    refused: Option<Seq<char>>,
) -> bool {
    &&& before.len() <= received.len() < emitted.len()
    &&& received == emitted.take(received.len() as int)
    &&& refused == Some(emitted[received.len() as int])
}

/// Whether a step that cannot reach the sink ended as the model says: in the
/// state `expected` when it succeeded, with the model's failure when not.
pub open spec fn settled(
    expected: StreamModel,
    outcome: Result<(), DecodeError>,
    after: StreamAccumulator,
) -> bool {
    match outcome {
        Ok(_) => expected.failure is None && after.model(expected.emitted) == expected,
        Err(e) => expected.failure == Some(e.deep_view()),
    }
}

/// Whether a step that may reach the sink ended as the model says.
///
/// On success the decoder is in the state `expected` and the sink has received
/// what the model emitted. On a decode error the model failed with that error,
/// and the sink has received what the model emitted up to there. When the
/// sink refuses a fragment, it has received the model's fragments before that
/// one, and that one is what it refused.
pub open spec fn delivered<E>(
    expected: StreamModel,
    before: Seq<Seq<char>>,
    outcome: Result<(), StreamError<E>>,
    after: StreamAccumulator,
    received: Seq<Seq<char>>,
    refused: Option<Seq<char>>,
) -> bool {
    match outcome {
        Ok(_) => expected.failure is None && received == expected.emitted && after.model(received)
            == expected,
        Err(StreamError::Decode(e)) => expected.failure == Some(e.deep_view()) && received
            == expected.emitted,
        Err(StreamError::Callback(_)) => refused_within(
            expected.emitted,
            before,
            received,
            refused,
        ),
    }
}

/// Whether ending a stream gave what the model says: the model's response on
/// success, the model's failure on a decode error. When the sink refuses a
/// fragment, it has received the model's fragments before that one, and that
/// one is what it refused.
pub open spec fn answered<E>(
    expected: StreamModel,
    before: Seq<Seq<char>>,
    outcome: Result<LLMResponse, StreamError<E>>,
    received: Seq<Seq<char>>,
    refused: Option<Seq<char>>,
) -> bool {
    match outcome {
        Ok(response) => expected.failure is None && received == expected.emitted
            && response.deep_view() == expected.response(),
        Err(StreamError::Decode(e)) => expected.failure == Some(e.deep_view()) && received
            == expected.emitted,
        Err(StreamError::Callback(_)) => refused_within(
            expected.emitted,
            before,
            received,
            refused,
        ),
    }
}

/// The chunks of a stream as mathematical values.
pub open spec fn chunk_views(chunks: Seq<Vec<u8>>) -> Seq<Seq<u8>> {
    Seq::new(chunks.len(), |i: int| chunks[i]@)
}

/// A refusal within the fragments of a beginning is one within the whole.
pub proof fn lemma_refused_within_extends(
    part: Seq<Seq<char>>,
    whole: Seq<Seq<char>>,
    before: Seq<Seq<char>>,
    earlier: Seq<Seq<char>>,
    received: Seq<Seq<char>>,
    refused: Option<Seq<char>>,
)
    requires
        refused_within(part, before, received, refused),
        is_prefix(part, whole),
        earlier.len() <= before.len(),
    ensures
        refused_within(whole, earlier, received, refused),
{
    let n = received.len() as int;
    assert(whole.take(part.len() as int)[n] == part[n]);
    assert(whole.take(n) =~= part.take(n)) by {
        assert forall|i: int| 0 <= i < n implies whole[i] == part[i] by {
            assert(whole.take(part.len() as int)[i] == part[i]);
        }
    }
}

/// A copy of an optional text.
fn copy_optional_text(text: &Option<String>) -> (out: Option<String>)
    ensures
        out.deep_view() == text.deep_view(),
{
    match text {
        Some(t) => Some(t.clone()),
        None => None,
    }
}

impl StreamAccumulator {
    /// The state of this decoder as a mathematical value, given the fragments
    /// that the sink has received.
    pub open spec fn model(&self, emitted: Seq<Seq<char>>) -> StreamModel {
        StreamModel {
            line: self.line_buffer@,
            text: self.text@,
            open: self.current_tool.deep_view(),
            completed: self.completed.deep_view(),
            usage: self.usage,
            emitted,
            failure: None,
        }
    }

    /// A decoder that has seen no input.
    pub fn new() -> (acc: StreamAccumulator)
        ensures
            acc.model(Seq::empty()) == StreamModel::initial(),
    {
        let acc = StreamAccumulator {
            line_buffer: String::new(),
            text: String::new(),
            current_tool: None,
            completed: Vec::new(),
            usage: None,
        };
        assert(acc.completed.deep_view() =~= Seq::empty());
        assert(acc.model(Seq::empty()) =~= StreamModel::initial());
        acc
    }

    /// Folds the open tool call, if there is one, into a completed block.
    fn close_open(&mut self, Ghost(emitted): Ghost<Seq<Seq<char>>>) -> (outcome: Result<
        (),
        DecodeError,
    >)
        ensures
            settled(old(self).model(emitted).close_open(), outcome, *final(self)),
    {
        match self.current_tool.take() {
            None => {
                assert(self.model(emitted) =~= old(self).model(emitted));
                Ok(())
            },
            Some(tool) => match build_tool_block(tool) {
                Ok(block) => {
                    self.completed.push(block);
                    assert(self.completed.deep_view() =~= old(self).completed.deep_view().push(
                        block.deep_view(),
                    ));
                    assert(self.model(emitted) =~= old(self).model(emitted).close_open());
                    Ok(())
                },
                Err(e) => Err(e),
            },
        }
    }

    /// Merges one tool-call update.
    fn apply_tool_delta(
        &mut self,
        delta: &ToolCallDelta,
        Ghost(emitted): Ghost<Seq<Seq<char>>>,
    ) -> (outcome: Result<(), DecodeError>)
        ensures
            settled(
                old(self).model(emitted).apply_tool_delta(delta.deep_view()),
                outcome,
                *final(self),
            ),
    {
        let function = match &delta.function {
            Some(function) => function,
            None => { return Ok(()); },
        };
        if delta.id.is_some() {
            match self.close_open(Ghost(emitted)) {
                Ok(()) => {},
                Err(e) => { return Err(e); },
            }
            let arguments = match &function.arguments {
                Some(a) => a.clone(),
                None => String::new(),
            };
            self.current_tool = Some(
                PartialToolCall {
                    id: copy_optional_text(&delta.id),
                    name: copy_optional_text(&function.name),
                    arguments,
                },
            );
            assert(self.model(emitted) =~= old(self).model(emitted).apply_tool_delta(
                delta.deep_view(),
            ));
            Ok(())
        } else {
            match &function.arguments {
                Some(fragment) => {
                    match self.current_tool.take() {
                        Some(tool) => {
                            let PartialToolCall { id, name, arguments } = tool;
                            let arguments = arguments.concat(fragment.as_str());
                            self.current_tool = Some(PartialToolCall { id, name, arguments });
                        },
                        None => {},
                    }
                },
                None => {},
            }
            assert(self.model(emitted) =~= old(self).model(emitted).apply_tool_delta(
                delta.deep_view(),
            ));
            Ok(())
        }
    }

    /// Merges one event, handing its text fragment to `sink` first.
    #[verifier::loop_isolation(false)]
    pub fn apply_event<S: TokenSink>(&mut self, event: &StreamEvent, sink: &mut S) -> (outcome:
        Result<(), StreamError<S::Failure>>)
        ensures
            delivered(
                old(self).model(old(sink).received()).apply_event(event.deep_view()),
                old(sink).received(),
                outcome,
                *final(self),
                final(sink).received(),
                final(sink).refused(),
            ),
    {
        let ghost start = self.model(sink.received());
        let ghost goal = start.apply_event(event.deep_view());
        let ghost deltas = event.tool_calls.deep_view();
        match &event.content {
            Some(fragment) => {
                match sink.emit(fragment.as_str()) {
                    Ok(()) => {},
                    Err(refusal) => {
                        proof {
                            lemma_event_extends(start, event.deep_view());
                        }
                        return Err(StreamError::Callback(refusal));
                    },
                }
                self.text.append(fragment.as_str());
            },
            None => {},
        }
        let ghost emitted = sink.received();
        let ghost with_text = self.model(emitted);
        assert(with_text =~= match event.deep_view().content {
            Some(t) => start.emit(t),
            None => start,
        });
        let mut i: usize = 0;
        while i < event.tool_calls.len()
            invariant
                0 <= i <= event.tool_calls.len(),
                deltas == event.tool_calls.deep_view(),
                self.model(emitted) == with_text.apply_tool_deltas(deltas.take(i as int)),
            decreases event.tool_calls.len() - i,
        {
            let ghost before = self.model(emitted);
            proof {
                assert(deltas.take(i as int + 1).drop_last() =~= deltas.take(i as int));
                assert(deltas.take(i as int + 1).last() == event.tool_calls[i as int].deep_view());
            }
            match self.apply_tool_delta(&event.tool_calls[i], Ghost(emitted)) {
                Ok(()) => {},
                Err(e) => {
                    proof {
                        lemma_tool_deltas_failure_sticks(with_text, deltas, i as int + 1);
                        lemma_tool_deltas_keep_emitted(with_text, deltas);
                    }
                    return Err(StreamError::Decode(e));
                },
            }
            i += 1;
        }
        proof {
            assert(deltas.take(i as int) =~= deltas);
            lemma_tool_deltas_keep_emitted(with_text, deltas);
        }
        if event.finished {
            match self.close_open(Ghost(emitted)) {
                Ok(()) => {},
                Err(e) => { return Err(StreamError::Decode(e)); },
            }
        }
        match event.usage {
            Some(u) => {
                self.usage = Some(u);
            },
            None => {},
        }
        assert(self.model(emitted) =~= goal);
        Ok(())
    }

    /// Decodes one complete line of the stream. A line that is not a data
    /// line, the end sentinel, and a payload that is no event are skipped.
    pub fn process_sse_line<S: TokenSink>(&mut self, line: &str, sink: &mut S) -> (outcome: Result<
        (),
        StreamError<S::Failure>,
    >)
        ensures
            delivered(
                old(self).model(old(sink).received()).apply_line(line@),
                old(sink).received(),
                outcome,
                *final(self),
                final(sink).received(),
                final(sink).refused(),
            ),
    {
        let chars = chars_of(line);
        let n = chars.len();
        if n < 6 || chars[0] != 'd' || chars[1] != 'a' || chars[2] != 't' || chars[3] != 'a'
            || chars[4] != ':' || chars[5] != ' ' {
            proof {
                if n >= 6 {
                    let head = line@.take(6);
                    assert(head[0] == line@[0] && head[1] == line@[1] && head[2] == line@[2]
                        && head[3] == line@[3] && head[4] == line@[4] && head[5] == line@[5]);
                    assert(head != data_prefix());
                }
            }
            return Ok(());
        }
        assert(line@.take(6) =~= data_prefix());
        let payload = line.substring_char(6, n);
        assert(payload@ =~= line@.skip(6));
        if n == 12 && chars[6] == '[' && chars[7] == 'D' && chars[8] == 'O' && chars[9] == 'N'
            && chars[10] == 'E' && chars[11] == ']' {
            assert(payload@ =~= done_marker());
            return Ok(());
        }
        proof {
            if payload@ == done_marker() {
                assert(payload@.len() == 6);
                assert(payload@[0] == line@[6] && payload@[1] == line@[7] && payload@[2]
                    == line@[8] && payload@[3] == line@[9] && payload@[4] == line@[10]
                    && payload@[5] == line@[11]);
                assert(false);
            }
        }
        match Json::parse(payload) {
            Ok(document) => match decode_stream_event(&document) {
                Some(event) => self.apply_event(&event, sink),
                None => Ok(()),
            },
            Err(_) => Ok(()),
        }
    }

    /// Consumes one chunk of the stream. The chunk must be valid UTF-8 by
    /// itself; each newline in it completes a line, and an empty line is
    /// skipped.
    #[verifier::loop_isolation(false)]
    pub fn process_chunk<S: TokenSink>(&mut self, chunk: &[u8], sink: &mut S) -> (outcome: Result<
        (),
        StreamError<S::Failure>,
    >)
        ensures
            delivered(
                old(self).model(old(sink).received()).push_chunk(chunk@),
                old(sink).received(),
                outcome,
                *final(self),
                final(sink).received(),
                final(sink).refused(),
            ),
    {
        let ghost start = self.model(sink.received());
        let text = match utf8_text(chunk) {
            Some(text) => text,
            None => { return Err(StreamError::Decode(DecodeError::InvalidUtf8)); },
        };
        let chars = chars_of(text);
        let ghost goal = start.feed(chars@);
        let mut i: usize = 0;
        assert(chars@.take(0) =~= Seq::<char>::empty());
        while i < chars.len()
            invariant
                0 <= i <= chars.len(),
                self.model(sink.received()) == start.feed(chars@.take(i as int)),
            decreases chars.len() - i,
        {
            let c = chars[i];
            let ghost before = self.model(sink.received());
            proof {
                assert(chars@.take(i as int + 1).drop_last() =~= chars@.take(i as int));
                assert(chars@.take(i as int + 1).last() == c);
                lemma_feed_prefix(start, chars@, i as int);
                lemma_feed_prefix(start, chars@, i as int + 1);
                assert(chars@.take(0) =~= Seq::<char>::empty());
                lemma_feed_prefix(start, chars@.take(i as int), 0);
            }
            if c == '\n' {
                if !self.line_buffer.as_str().is_empty() {
                    let mut line = String::new();
                    std::mem::swap(&mut line, &mut self.line_buffer);
                    assert(self.model(sink.received()) =~= (StreamModel {
                        line: Seq::empty(),
                        ..before
                    }));
                    match self.process_sse_line(line.as_str(), sink) {
                        Ok(()) => {},
                        Err(e) => {
                            proof {
                                if e is Callback {
                                    lemma_refused_within_extends(
                                        start.feed(chars@.take(i as int + 1)).emitted,
                                        goal.emitted,
                                        before.emitted,
                                        start.emitted,
                                        sink.received(),
                                        sink.refused(),
                                    );
                                }
                            }
                            return Err(e);
                        },
                    }
                }
            } else {
                push_char(&mut self.line_buffer, c);
                assert(self.model(sink.received()) =~= before.feed_char(c));
            }
            i += 1;
        }
        assert(chars@.take(i as int) =~= chars@);
        Ok(())
    }

    /// Ends the stream and assembles the response: the accumulated text, if
    /// there is any, then the completed tool calls in the order in which the
    /// stream opened them. An unterminated last line is decoded first, and a
    /// tool call that is still open is closed.
    pub fn finish<S: TokenSink>(self, sink: &mut S) -> (outcome: Result<
        LLMResponse,
        StreamError<S::Failure>,
    >)
        ensures
            answered(
                self.model(old(sink).received()).finish(),
                old(sink).received(),
                outcome,
                final(sink).received(),
                final(sink).refused(),
            ),
    {
        let ghost start = self.model(sink.received());
        let mut acc = self;
        proof {
            lemma_finish_extends(start);
        }
        if !acc.line_buffer.as_str().is_empty() {
            let mut line = String::new();
            std::mem::swap(&mut line, &mut acc.line_buffer);
            assert(acc.model(sink.received()) =~= (StreamModel { line: Seq::empty(), ..start }));
            match acc.process_sse_line(line.as_str(), sink) {
                Ok(()) => {},
                Err(e) => { return Err(e); },
            }
        }
        assert(acc.model(sink.received()) == start.flush_line());
        match acc.close_open(Ghost(sink.received())) {
            Ok(()) => {},
            Err(e) => { return Err(StreamError::Decode(e)); },
        }
        let ghost end = acc.model(sink.received());
        let StreamAccumulator { line_buffer: _, text, current_tool: _, completed, usage } = acc;
        let mut content = completed;
        if !text.as_str().is_empty() {
            content.insert(0, ContentBlock::Text { text });
            assert(content.deep_view() =~= seq![ContentBlockView::Text { text: end.text }]
                + end.completed);
        }
        let usage = match usage {
            Some(u) => u,
            None => Usage::unknown(),
        };
        Ok(LLMResponse { content, usage })
    }
}

/// Decodes a whole stream, chunk by chunk, handing each text fragment to
/// `sink` as it is decoded.
#[verifier::loop_isolation(false)]
pub fn decode_stream<S: TokenSink>(chunks: &Vec<Vec<u8>>, sink: &mut S) -> (outcome: Result<
    LLMResponse,
    StreamError<S::Failure>,
>)
    ensures
        answered(
            StreamModel::starting(old(sink).received()).push_chunks(chunk_views(chunks@)).finish(),
            old(sink).received(),
            outcome,
            final(sink).received(),
            final(sink).refused(),
        ),
{
    let ghost views = chunk_views(chunks@);
    let ghost start = StreamModel::starting(sink.received());
    let mut acc = StreamAccumulator::new();
    assert(acc.model(sink.received()) =~= start);
    assert(views.take(0) =~= Seq::<Seq<u8>>::empty());
    let mut i: usize = 0;
    while i < chunks.len()
        invariant
            0 <= i <= chunks.len(),
            acc.model(sink.received()) == start.push_chunks(views.take(i as int)),
        decreases chunks.len() - i,
    {
        proof {
            assert(views.take(i as int + 1).drop_last() =~= views.take(i as int));
            assert(views.take(i as int + 1).last() == chunks@[i as int]@);
            lemma_push_chunks_prefix(start, views, i as int);
            lemma_push_chunks_prefix(start, views, i as int + 1);
            assert(views.take(i as int).take(0) =~= Seq::<Seq<u8>>::empty());
            lemma_push_chunks_prefix(start, views.take(i as int), 0);
            lemma_finish_extends(start.push_chunks(views));
            lemma_prefix_chain(
                start.push_chunks(views.take(i as int + 1)).emitted,
                start.push_chunks(views).emitted,
                start.push_chunks(views).finish().emitted,
            );
        }
        let ghost before = sink.received();
        match acc.process_chunk(chunks[i].as_slice(), sink) {
            Ok(()) => {},
            Err(e) => {
                proof {
                    if e is Callback {
                        lemma_refused_within_extends(
                            start.push_chunks(views.take(i as int + 1)).emitted,
                            start.push_chunks(views).finish().emitted,
                            before,
                            start.emitted,
                            sink.received(),
                            sink.refused(),
                        );
                    }
                }
                return Err(e);
            },
        }
        i += 1;
    }
    proof {
        assert(views.take(i as int) =~= views);
        assert(views.take(0) =~= Seq::<Seq<u8>>::empty());
        lemma_push_chunks_prefix(start, views, 0);
    }
    acc.finish(sink)
}

} // verus!
