//! What holds of the streaming decoder on every input.

use crate::json::parsed_json;
use crate::stream::{answered, StreamError};
use crate::stream_model::{
    data_payload, done_marker, finalize_tool, line_event, stream_response, DecodeErrorView,
    PartialToolCallView, StreamModel,
};
use crate::types::{ContentBlockView, LLMResponse, ResponseView, Usage};
use crate::wire::{StreamEventView, ToolCallDeltaView};
use vstd::prelude::*;
use vstd::utf8::{decode_utf8, valid_utf8};

verus! {

/// The fragments of `parts` joined in order.
pub open spec fn concat_all(parts: Seq<Seq<char>>) -> Seq<char>
    decreases parts.len(),
{
    if parts.len() == 0 {
        Seq::empty()
    } else {
        concat_all(parts.drop_last()) + parts.last()
    }
}

/// Whether every block of `blocks` is a tool invocation.
pub open spec fn all_tool_use(blocks: Seq<ContentBlockView>) -> bool {
    forall|i: int| 0 <= i < blocks.len() ==> #[trigger] blocks[i] is ToolUse
}

/// Whether the accumulated text of `s` is the fragments it has emitted, joined
/// in order, and its completed blocks are tool invocations.
pub open spec fn coherent(s: StreamModel) -> bool {
    s.text == concat_all(s.emitted) && all_tool_use(s.completed)
}

proof fn lemma_close_open_coherent(s: StreamModel)
    requires
        coherent(s),
    ensures
        coherent(s.close_open()),
{
    if s.failure is None && s.open is Some {
        let p = s.open->0;
        match finalize_tool(p) {
            Ok(block) => {
                let after = s.close_open();
                assert forall|i: int| 0 <= i < after.completed.len() implies (
                #[trigger] after.completed[i]) is ToolUse by {
                    if i < s.completed.len() {
                        assert(after.completed[i] == s.completed[i]);
                    }
                }
            },
            Err(_) => {},
        }
    }
}

proof fn lemma_tool_deltas_coherent(s: StreamModel, ds: Seq<ToolCallDeltaView>)
    requires
        coherent(s),
    ensures
        coherent(s.apply_tool_deltas(ds)),
    decreases ds.len(),
{
    if ds.len() > 0 {
        lemma_tool_deltas_coherent(s, ds.drop_last());
        let mid = s.apply_tool_deltas(ds.drop_last());
        lemma_close_open_coherent(mid);
    }
}

proof fn lemma_event_coherent(s: StreamModel, e: StreamEventView)
    requires
        coherent(s),
    ensures
        coherent(s.apply_event(e)),
{
    if s.failure is None {
        let with_text = match e.content {
            Some(t) => s.emit(t),
            None => s,
        };
        if e.content is Some {
            assert(with_text.emitted.drop_last() =~= s.emitted);
        }
        lemma_tool_deltas_coherent(with_text, e.tool_calls);
        lemma_close_open_coherent(with_text.apply_tool_deltas(e.tool_calls));
    }
}

proof fn lemma_flush_coherent(s: StreamModel)
    requires
        coherent(s),
    ensures
        coherent(s.flush_line()),
{
    if s.failure is None && s.line.len() > 0 {
        match line_event(s.line) {
            Some(e) => {
                lemma_event_coherent(StreamModel { line: Seq::empty(), ..s }, e);
            },
            None => {},
        }
    }
}

proof fn lemma_feed_coherent(s: StreamModel, chars: Seq<char>)
    requires
        coherent(s),
    ensures
        coherent(s.feed(chars)),
    decreases chars.len(),
{
    if chars.len() > 0 {
        lemma_feed_coherent(s, chars.drop_last());
        lemma_flush_coherent(s.feed(chars.drop_last()));
    }
}

proof fn lemma_push_chunks_coherent(s: StreamModel, chunks: Seq<Seq<u8>>)
    requires
        coherent(s),
    ensures
        coherent(s.push_chunks(chunks)),
    decreases chunks.len(),
{
    if chunks.len() > 0 {
        lemma_push_chunks_coherent(s, chunks.drop_last());
        let mid = s.push_chunks(chunks.drop_last());
        if mid.failure is None && valid_utf8(chunks.last()) {
            lemma_feed_coherent(mid, decode_utf8(chunks.last()));
        }
    }
}

/// In the model, the text of a decoded stream is the concatenation of every
/// text fragment that the decoder emits, in stream order. The response holds
/// that text as its first block when it is not empty, and no text block when
/// it is; every other block is a tool invocation.
pub proof fn lemma_text_is_concatenation_of_emitted(chunks: Seq<Seq<u8>>)
    ensures
        ({
            let end = StreamModel::initial().push_chunks(chunks).finish();
            let text = concat_all(end.emitted);
            &&& end.text == text
            &&& all_tool_use(end.completed)
            &&& end.response().content == if text.len() > 0 {
                seq![ContentBlockView::Text { text }] + end.completed
            } else {
                end.completed
            }
        }),
{
    let start = StreamModel::initial();
    assert(concat_all(start.emitted) =~= Seq::<char>::empty());
    lemma_push_chunks_coherent(start, chunks);
    let mid = start.push_chunks(chunks);
    lemma_flush_coherent(mid);
    lemma_close_open_coherent(mid.flush_line());
}

/// When a stream is decoded with a sink that had received nothing, the text
/// block of the response, if there is one, is the concatenation of what the
/// sink has received: every text fragment of the stream, once each and in
/// stream order. There is a text block exactly when that text is not empty;
/// it comes first, and every other block is a tool invocation.
pub proof fn lemma_text_is_concatenation_of_fragments<E>(
    chunks: Seq<Seq<u8>>,
    outcome: Result<LLMResponse, StreamError<E>>,
    received: Seq<Seq<char>>,
    refused: Option<Seq<char>>,
)
    requires
        answered(
            StreamModel::starting(Seq::empty()).push_chunks(chunks).finish(),
            Seq::empty(),
            outcome,
            received,
            refused,
        ),
    ensures
        outcome matches Ok(response) ==> ({
            let text = concat_all(received);
            let tools = StreamModel::initial().push_chunks(chunks).finish().completed;
            &&& all_tool_use(tools)
            &&& response.deep_view().content == if text.len() > 0 {
                seq![ContentBlockView::Text { text }] + tools
            } else {
                tools
            }
        }),
{
    assert(StreamModel::starting(Seq::empty()) == StreamModel::initial());
    lemma_text_is_concatenation_of_emitted(chunks);
}

/// The argument fragment that a tool-call update carries; empty if it carries
/// none.
pub open spec fn fragment_of(d: ToolCallDeltaView) -> Seq<char> {
    match d.function {
        Some(f) => match f.arguments {
            Some(a) => a,
            None => Seq::empty(),
        },
        None => Seq::empty(),
    }
}

/// The argument fragments of a list of updates, in order.
pub open spec fn fragments_of(ds: Seq<ToolCallDeltaView>) -> Seq<Seq<char>> {
    Seq::new(ds.len(), |i: int| fragment_of(ds[i]))
}

/// Whether every update of `ds` continues a call, that is, has no identifier.
pub open spec fn all_continuations(ds: Seq<ToolCallDeltaView>) -> bool {
    forall|i: int| 0 <= i < ds.len() ==> (#[trigger] ds[i]).id is None
}

proof fn lemma_continuations_append(
    s: StreamModel,
    p: PartialToolCallView,
    ds: Seq<ToolCallDeltaView>,
)
    requires
        s.failure is None,
        s.open == Some(p),
        all_continuations(ds),
    ensures
        s.apply_tool_deltas(ds) == (StreamModel {
            open: Some(
                PartialToolCallView {
                    arguments: p.arguments + concat_all(fragments_of(ds)),
                    ..p
                },
            ),
            ..s
        }),
    decreases ds.len(),
{
    if ds.len() == 0 {
        assert(fragments_of(ds) =~= Seq::<Seq<char>>::empty());
        assert(p.arguments + concat_all(fragments_of(ds)) =~= p.arguments);
    } else {
        let front = ds.drop_last();
        assert(all_continuations(front)) by {
            assert forall|i: int| 0 <= i < front.len() implies (#[trigger] front[i]).id is None by {
                assert(front[i] == ds[i]);
            }
        }
        lemma_continuations_append(s, p, front);
        assert(fragments_of(ds).drop_last() =~= fragments_of(front));
        assert(fragments_of(ds).last() == fragment_of(ds.last()));
        assert(ds.last() == ds[ds.len() - 1]);
        let so_far = p.arguments + concat_all(fragments_of(front));
        assert(so_far + fragment_of(ds.last()) =~= p.arguments + concat_all(fragments_of(ds)));
        assert(so_far + Seq::<char>::empty() =~= so_far);
    }
}

/// A completed tool invocation carries the identifier and the name of the
/// update that opened it, and its input is the JSON reading of the argument
/// fragments joined in order: that of the opening update, then those of the
/// updates that continued the call up to the point where it is closed.
///
/// `s` is any state whose open call, if it has one, can be closed; `opening`
/// opens a call and `rest` continues it. The call is closed by whatever comes
/// next: another opening update, a finish marker, or the end of the stream.
pub proof fn lemma_tool_call_reconstruction(
    s: StreamModel,
    opening: ToolCallDeltaView,
    rest: Seq<ToolCallDeltaView>,
)
    requires
        s.close_open().failure is None,
        opening.id is Some,
        opening.function is Some,
        all_continuations(rest),
    ensures
        ({
            let opened = s.apply_tool_delta(opening).apply_tool_deltas(rest);
            let arguments = fragment_of(opening) + concat_all(fragments_of(rest));
            let name = opening.function->0.name;
            &&& opened.failure is None
            &&& opened.completed == s.close_open().completed
            &&& opened.open == Some(PartialToolCallView { id: opening.id, name, arguments })
            &&& name is Some && parsed_json(arguments) is Ok ==> {
                &&& opened.close_open().failure is None
                &&& opened.close_open().open is None
                &&& opened.close_open().completed == opened.completed.push(
                    ContentBlockView::ToolUse {
                        id: opening.id->0,
                        name: name->0,
                        input: parsed_json(arguments)->Ok_0,
                    },
                )
            }
            &&& name is None ==> opened.close_open().failure == Some(
                DecodeErrorView::MissingToolName,
            )
            &&& name is Some && parsed_json(arguments) is Err ==> opened.close_open().failure
                == Some(DecodeErrorView::InvalidToolArguments(parsed_json(arguments)->Err_0))
        }),
{
    let first = s.apply_tool_delta(opening);
    let p = PartialToolCallView {
        id: opening.id,
        name: opening.function->0.name,
        arguments: fragment_of(opening),
    };
    assert(first.open == Some(p));
    lemma_continuations_append(first, p, rest);
}

/// Decoding the same stream again gives the same response: two runs that both
/// end as the model of one input says return equal values.
pub proof fn lemma_reparsing_gives_same_response<E>(
    expected: StreamModel,
    before: Seq<Seq<char>>,
    first: Result<LLMResponse, StreamError<E>>,
    first_received: Seq<Seq<char>>,
    first_refused: Option<Seq<char>>,
    second: Result<LLMResponse, StreamError<E>>,
    second_received: Seq<Seq<char>>,
    second_refused: Option<Seq<char>>,
)
    requires
        answered(expected, before, first, first_received, first_refused),
        answered(expected, before, second, second_received, second_refused),
    ensures
        match (first, second) {
            (Ok(a), Ok(b)) => a.deep_view() == b.deep_view() && first_received == second_received,
            (Err(StreamError::Decode(a)), Err(StreamError::Decode(b))) => a.deep_view()
                == b.deep_view(),
            (Ok(_), Err(StreamError::Decode(_))) => false,
            (Err(StreamError::Decode(_)), Ok(_)) => false,
            _ => true,
        },
{
}

/// The unterminated line that is pending after `chars` have followed the
/// pending line `line`.
pub open spec fn tail_line(line: Seq<char>, chars: Seq<char>) -> Seq<char>
    decreases chars.len(),
{
    if chars.len() == 0 {
        line
    } else if chars.last() == '\n' {
        Seq::empty()
    } else {
        tail_line(line, chars.drop_last()).push(chars.last())
    }
}

/// The non-empty lines that `chars` complete, in order, when they follow the
/// pending line `line`.
pub open spec fn lines_of(line: Seq<char>, chars: Seq<char>) -> Seq<Seq<char>>
    decreases chars.len(),
{
    if chars.len() == 0 {
        Seq::empty()
    } else {
        let earlier = lines_of(line, chars.drop_last());
        let pending = tail_line(line, chars.drop_last());
        if chars.last() == '\n' && pending.len() > 0 {
            earlier.push(pending)
        } else {
            earlier
        }
    }
}

/// The unterminated line that is pending at the end of `chunks`.
pub open spec fn stream_tail(chunks: Seq<Seq<u8>>) -> Seq<char>
    decreases chunks.len(),
{
    if chunks.len() == 0 {
        Seq::empty()
    } else {
        tail_line(stream_tail(chunks.drop_last()), decode_utf8(chunks.last()))
    }
}

/// The non-empty lines that `chunks` complete, in order; a line may span
/// several chunks.
pub open spec fn stream_lines(chunks: Seq<Seq<u8>>) -> Seq<Seq<char>>
    decreases chunks.len(),
{
    if chunks.len() == 0 {
        Seq::empty()
    } else {
        stream_lines(chunks.drop_last()) + lines_of(
            stream_tail(chunks.drop_last()),
            decode_utf8(chunks.last()),
        )
    }
}

/// Whether none of `lines` carries an event.
pub open spec fn no_events(lines: Seq<Seq<char>>) -> bool {
    forall|i: int| 0 <= i < lines.len() ==> line_event(#[trigger] lines[i]) is None
}

/// Whether every chunk of `chunks` is valid UTF-8.
pub open spec fn all_valid_utf8(chunks: Seq<Seq<u8>>) -> bool {
    forall|i: int| 0 <= i < chunks.len() ==> valid_utf8(#[trigger] chunks[i])
}

/// A line without the data prefix carries no event, and neither does the
/// data line whose payload is the end sentinel.
pub proof fn lemma_lines_without_event(line: Seq<char>)
    ensures
        data_payload(line) is None ==> line_event(line) is None,
        data_payload(line) == Some(done_marker()) ==> line_event(line) is None,
{
}

proof fn lemma_feed_without_events(s: StreamModel, chars: Seq<char>)
    requires
        s.failure is None,
        no_events(lines_of(s.line, chars)),
    ensures
        s.feed(chars) == (StreamModel { line: tail_line(s.line, chars), ..s }),
    decreases chars.len(),
{
    if chars.len() > 0 {
        let front = chars.drop_last();
        let earlier = lines_of(s.line, front);
        let all = lines_of(s.line, chars);
        assert(no_events(earlier)) by {
            assert forall|i: int| 0 <= i < earlier.len() implies line_event(
                #[trigger] earlier[i],
            ) is None by {
                assert(all[i] == earlier[i]);
            }
        }
        lemma_feed_without_events(s, front);
        let pending = tail_line(s.line, front);
        let mid = s.feed(front);
        if chars.last() == '\n' && pending.len() > 0 {
            assert(all[all.len() - 1] == pending);
            assert(line_event(pending) is None);
            assert(mid.feed_char(chars.last()) == (StreamModel { line: Seq::empty(), ..mid }));
        } else if chars.last() == '\n' {
            assert(pending =~= Seq::<char>::empty());
            assert(mid.feed_char(chars.last()) == mid);
        }
        assert(s.feed(chars) =~= (StreamModel { line: tail_line(s.line, chars), ..s }));
    } else {
        assert(s.feed(chars) =~= (StreamModel { line: tail_line(s.line, chars), ..s }));
    }
}

proof fn lemma_push_chunks_without_events(chunks: Seq<Seq<u8>>)
    requires
        all_valid_utf8(chunks),
        no_events(stream_lines(chunks)),
    ensures
        StreamModel::initial().push_chunks(chunks) == (StreamModel {
            line: stream_tail(chunks),
            ..StreamModel::initial()
        }),
    decreases chunks.len(),
{
    if chunks.len() > 0 {
        let front = chunks.drop_last();
        let earlier = stream_lines(front);
        let all = stream_lines(chunks);
        let last = lines_of(stream_tail(front), decode_utf8(chunks.last()));
        assert(all_valid_utf8(front)) by {
            assert forall|i: int| 0 <= i < front.len() implies valid_utf8(#[trigger] front[i]) by {
                assert(front[i] == chunks[i]);
            }
        }
        assert(no_events(earlier)) by {
            assert forall|i: int| 0 <= i < earlier.len() implies line_event(
                #[trigger] earlier[i],
            ) is None by {
                assert(all[i] == earlier[i]);
            }
        }
        assert(no_events(last)) by {
            assert forall|i: int| 0 <= i < last.len() implies line_event(#[trigger] last[i])
                is None by {
                assert(all[earlier.len() + i] == last[i]);
            }
        }
        lemma_push_chunks_without_events(front);
        let mid = StreamModel::initial().push_chunks(front);
        assert(valid_utf8(chunks[chunks.len() - 1]));
        lemma_feed_without_events(mid, decode_utf8(chunks.last()));
    }
}

/// A stream none of whose lines carries an event decodes to the empty
/// response: no content, and usage zero. The lines are those that the chunks
/// complete and the unterminated line at the end of the stream. In
/// particular this is so of a stream without a data line, and of one whose
/// only data line is the end sentinel.
pub proof fn lemma_stream_without_events_is_empty(chunks: Seq<Seq<u8>>)
    requires
        all_valid_utf8(chunks),
        no_events(stream_lines(chunks)),
        line_event(stream_tail(chunks)) is None,
    ensures
        stream_response(chunks) == Ok::<ResponseView, DecodeErrorView>(
            ResponseView {
                content: Seq::empty(),
                usage: Usage { input_tokens: 0, output_tokens: 0 },
            },
        ),
{
    lemma_push_chunks_without_events(chunks);
}

/// The state `s` of a decoder whose sink had received `extra` before the
/// fragments that `s` lists.
pub open spec fn shifted(s: StreamModel, extra: Seq<Seq<char>>) -> StreamModel {
    StreamModel { emitted: extra + s.emitted, ..s }
}

proof fn lemma_tool_deltas_shifted(
    s: StreamModel,
    extra: Seq<Seq<char>>,
    ds: Seq<ToolCallDeltaView>,
)
    ensures
        shifted(s, extra).apply_tool_deltas(ds) == shifted(s.apply_tool_deltas(ds), extra),
    decreases ds.len(),
{
    if ds.len() > 0 {
        lemma_tool_deltas_shifted(s, extra, ds.drop_last());
    }
}

proof fn lemma_event_shifted(s: StreamModel, extra: Seq<Seq<char>>, e: StreamEventView)
    ensures
        shifted(s, extra).apply_event(e) == shifted(s.apply_event(e), extra),
{
    if s.failure is None {
        let with_text = match e.content {
            Some(t) => s.emit(t),
            None => s,
        };
        match e.content {
            Some(t) => {
                assert(extra + s.emitted.push(t) =~= (extra + s.emitted).push(t));
                assert(shifted(s, extra).emit(t) == shifted(with_text, extra));
            },
            None => {},
        }
        lemma_tool_deltas_shifted(with_text, extra, e.tool_calls);
    }
}

proof fn lemma_flush_shifted(s: StreamModel, extra: Seq<Seq<char>>)
    ensures
        shifted(s, extra).flush_line() == shifted(s.flush_line(), extra),
{
    if s.failure is None && s.line.len() > 0 {
        let cleared = StreamModel { line: Seq::empty(), ..s };
        assert(shifted(cleared, extra) == (StreamModel {
            line: Seq::empty(),
            ..shifted(s, extra)
        }));
        match line_event(s.line) {
            Some(e) => {
                lemma_event_shifted(cleared, extra, e);
            },
            None => {},
        }
    }
}

proof fn lemma_feed_shifted(s: StreamModel, extra: Seq<Seq<char>>, chars: Seq<char>)
    ensures
        shifted(s, extra).feed(chars) == shifted(s.feed(chars), extra),
    decreases chars.len(),
{
    if chars.len() > 0 {
        lemma_feed_shifted(s, extra, chars.drop_last());
        lemma_flush_shifted(s.feed(chars.drop_last()), extra);
    }
}

proof fn lemma_push_chunks_shifted(s: StreamModel, extra: Seq<Seq<char>>, chunks: Seq<Seq<u8>>)
    ensures
        shifted(s, extra).push_chunks(chunks) == shifted(s.push_chunks(chunks), extra),
    decreases chunks.len(),
{
    if chunks.len() > 0 {
        lemma_push_chunks_shifted(s, extra, chunks.drop_last());
        let mid = s.push_chunks(chunks.drop_last());
        if mid.failure is None && valid_utf8(chunks.last()) {
            lemma_feed_shifted(mid, extra, decode_utf8(chunks.last()));
        }
    }
}

/// What a sink had received before a stream is decoded changes nothing but
/// the list of what it has received: the decoder ends as it does with a fresh
/// sink, and hands the same fragments over.
pub proof fn lemma_earlier_fragments_do_not_matter(before: Seq<Seq<char>>, chunks: Seq<Seq<u8>>)
    ensures
        ({
            let fresh = StreamModel::initial().push_chunks(chunks).finish();
            let end = StreamModel::starting(before).push_chunks(chunks).finish();
            &&& end == shifted(fresh, before)
            &&& end.failure == fresh.failure
            &&& end.response() == fresh.response()
            &&& end.emitted == before + fresh.emitted
        }),
{
    let start = StreamModel::initial();
    assert(before + start.emitted =~= before);
    assert(StreamModel::starting(before) == shifted(start, before));
    lemma_push_chunks_shifted(start, before, chunks);
    lemma_flush_shifted(start.push_chunks(chunks), before);
}

/// A decoded stream gives the response that [`stream_response`] names, with
/// whatever sink it is decoded: a run that ends as the model says returns
/// that response, or fails with that decode error, unless the sink refuses a
/// fragment; and what the sink has received beyond `before` is the text
/// fragments of the stream, in order.
pub proof fn lemma_decoding_gives_stream_response<E>(
    chunks: Seq<Seq<u8>>,
    before: Seq<Seq<char>>,
    outcome: Result<LLMResponse, StreamError<E>>,
    received: Seq<Seq<char>>,
    refused: Option<Seq<char>>,
)
    requires
        answered(
            StreamModel::starting(before).push_chunks(chunks).finish(),
            before,
            outcome,
            received,
            refused,
        ),
    ensures
        match outcome {
            Ok(response) => stream_response(chunks) == Ok::<ResponseView, DecodeErrorView>(
                response.deep_view(),
            ) && received == before + StreamModel::initial().push_chunks(chunks).finish().emitted,
            Err(StreamError::Decode(e)) => stream_response(chunks) == Err::<
                ResponseView,
                DecodeErrorView,
            >(e.deep_view()),
            Err(StreamError::Callback(_)) => true,
        },
{
    lemma_earlier_fragments_do_not_matter(before, chunks);
}

} // verus!
