//! The decoder of complete, non-streamed responses.

use crate::json::{parsed_json, Json};
use crate::stream_model::{DecodeError, DecodeErrorView};
use crate::types::{ContentBlock, ContentBlockView, LLMResponse, ResponseView};
use crate::wire::{completion_of, decode_completion, Completion, CompletionView, ToolCallView};
use vstd::prelude::*;
use vstd::string::StringExecFns;

verus! {

/// The reason given for a body that is a JSON document of another shape than
/// a complete response.
pub open spec fn shape_fault() -> Seq<char> {
    "response does not have the expected shape"@
}

/// The block that one tool call of a complete response becomes: its arguments
/// must read as a JSON document.
pub open spec fn tool_block_of(call: ToolCallView) -> Result<ContentBlockView, DecodeErrorView> {
    match parsed_json(call.arguments) {
        Ok(input) => Ok(ContentBlockView::ToolUse { id: call.id, name: call.name, input }),
        Err(why) => Err(DecodeErrorView::InvalidToolArguments(why)),
    }
}

/// The blocks that the tool calls of a complete response become, in order; or
/// the fault of the first call whose arguments are no JSON document.
pub open spec fn tool_blocks_of(calls: Seq<ToolCallView>) -> Result<
    Seq<ContentBlockView>,
    DecodeErrorView,
>
    decreases calls.len(),
{
    if calls.len() == 0 {
        Ok(Seq::empty())
    } else {
        match tool_blocks_of(calls.drop_last()) {
            Ok(blocks) => match tool_block_of(calls.last()) {
                Ok(block) => Ok(blocks.push(block)),
                Err(e) => Err(e),
            },
            Err(e) => Err(e),
        }
    }
}

/// The response that a completion amounts to: a text block if the content is
/// not empty, then one block for each tool call, in order.
pub open spec fn response_of_completion(c: CompletionView) -> Result<
    ResponseView,
    DecodeErrorView,
> {
    match tool_blocks_of(c.tool_calls) {
        Ok(blocks) => Ok(
            ResponseView {
                content: if c.content.len() > 0 {
                    seq![ContentBlockView::Text { text: c.content }] + blocks
                } else {
                    blocks
                },
                usage: c.usage,
            },
        ),
        Err(e) => Err(e),
    }
}

/// The response that the body of a complete response decodes to.
pub open spec fn decoded_response(body: Seq<char>) -> Result<ResponseView, DecodeErrorView> {
    match parsed_json(body) {
        Ok(v) => match completion_of(v) {
            Some(c) => response_of_completion(c),
            None => Err(DecodeErrorView::MalformedBody(shape_fault())),
        },
        Err(why) => Err(DecodeErrorView::MalformedBody(why)),
    }
}

/// Once the calls of a prefix have a fault, the whole list has that fault.
proof fn lemma_tool_blocks_fault_sticks(calls: Seq<ToolCallView>, k: int)
    requires
        0 <= k <= calls.len(),
        tool_blocks_of(calls.take(k)) is Err,
    ensures
        tool_blocks_of(calls) == tool_blocks_of(calls.take(k)),
    decreases calls.len() - k,
{
    if k == calls.len() {
        assert(calls.take(k) =~= calls);
    } else {
        assert(calls.take(k + 1).drop_last() =~= calls.take(k));
        lemma_tool_blocks_fault_sticks(calls, k + 1);
    }
}

/// Whether `out` is what the model `expected` says.
pub open spec fn decoded_as(
    out: Result<LLMResponse, DecodeError>,
    expected: Result<ResponseView, DecodeErrorView>,
) -> bool {
    match out {
        Ok(response) => expected == Ok::<ResponseView, DecodeErrorView>(response.deep_view()),
        Err(e) => expected == Err::<ResponseView, DecodeErrorView>(e.deep_view()),
    }
}

/// Turns what a complete response says into the uniform response.
#[verifier::loop_isolation(false)]
pub fn response_from_completion(completion: Completion) -> (out: Result<LLMResponse, DecodeError>)
    ensures
        decoded_as(out, response_of_completion(completion.deep_view())),
{
    let Completion { content, tool_calls, usage } = completion;
    let ghost calls = tool_calls.deep_view();
    let mut blocks: Vec<ContentBlock> = Vec::new();
    let mut i: usize = 0;
    assert(calls.take(0) =~= Seq::<ToolCallView>::empty());
    assert(blocks.deep_view() =~= Seq::<ContentBlockView>::empty());
    while i < tool_calls.len()
        invariant
            0 <= i <= tool_calls.len(),
            tool_blocks_of(calls.take(i as int)) == Ok::<Seq<ContentBlockView>, DecodeErrorView>(
                blocks.deep_view(),
            ),
        decreases tool_calls.len() - i,
    {
        let call = &tool_calls[i];
        proof {
            assert(calls.take(i as int + 1).drop_last() =~= calls.take(i as int));
            assert(calls.take(i as int + 1).last() == call.deep_view());
        }
        match Json::parse(call.arguments.as_str()) {
            Ok(input) => {
                let ghost before = blocks.deep_view();
                let block = ContentBlock::ToolUse {
                    id: call.id.clone(),
                    name: call.name.clone(),
                    input,
                };
                blocks.push(block);
                assert(blocks.deep_view() =~= before.push(block.deep_view()));
            },
            Err(why) => {
                proof {
                    lemma_tool_blocks_fault_sticks(calls, i as int + 1);
                }
                return Err(DecodeError::InvalidToolArguments(why));
            },
        }
        i += 1;
    }
    assert(calls.take(i as int) =~= calls);
    if !content.as_str().is_empty() {
        let ghost tools = blocks.deep_view();
        blocks.insert(0, ContentBlock::Text { text: content });
        assert(blocks.deep_view() =~= seq![ContentBlockView::Text { text: content@ }] + tools);
    }
    Ok(LLMResponse { content: blocks, usage })
}

/// Decodes the body of a complete response.
pub fn decode_response(body: &str) -> (out: Result<LLMResponse, DecodeError>)
    ensures
        decoded_as(out, decoded_response(body@)),
{
    match Json::parse(body) {
        Ok(document) => match decode_completion(&document) {
            Some(completion) => response_from_completion(completion),
            None => Err(
                DecodeError::MalformedBody(
                    String::from_str("response does not have the expected shape"),
                ),
            ),
        },
        Err(why) => Err(DecodeError::MalformedBody(why)),
    }
}

} // verus!
