//! The JSON shapes of an OpenAI-style chat-completion service, read from
//! [`Json`] documents: streamed events and complete responses.
//!
//! A member that the shape marks optional may be absent or `null`; a member of
//! the wrong kind makes the whole document unfit. Members that the shape does
//! not name are ignored.

use crate::json::{Json, JsonValue};
use crate::types::Usage;
use vstd::prelude::*;

verus! {

/// The part of a streamed tool call that names the function and carries a
/// fragment of its arguments.
#[derive(Debug, Clone, PartialEq, Eq)]
pub struct FunctionDelta {
    pub name: Option<String>,
    pub arguments: Option<String>,
}

/// The mathematical value of a [`FunctionDelta`].
pub struct FunctionDeltaView {
    pub name: Option<Seq<char>>,
    pub arguments: Option<Seq<char>>,
}

impl DeepView for FunctionDelta {
    type V = FunctionDeltaView;

    open spec fn deep_view(&self) -> FunctionDeltaView {
        FunctionDeltaView {
            name: self.name.deep_view(),
            arguments: self.arguments.deep_view(),
        }
    }
}

/// One streamed update of a tool call. A delta with an `id` opens a call; one
/// without continues the call that is open.
#[derive(Debug, Clone, PartialEq, Eq)]
pub struct ToolCallDelta {
    pub id: Option<String>,
    pub function: Option<FunctionDelta>,
}

/// The mathematical value of a [`ToolCallDelta`].
pub struct ToolCallDeltaView {
    pub id: Option<Seq<char>>,
    pub function: Option<FunctionDeltaView>,
}

impl DeepView for ToolCallDelta {
    type V = ToolCallDeltaView;

    open spec fn deep_view(&self) -> ToolCallDeltaView {
        ToolCallDeltaView { id: self.id.deep_view(), function: self.function.deep_view() }
    }
}

/// What one streamed event says: the update of the first choice, if the event
/// has one, and the usage report, if it carries one.
#[derive(Debug, Clone, PartialEq, Eq)]
pub struct StreamEvent {
    pub content: Option<String>,
    pub tool_calls: Vec<ToolCallDelta>,
    pub finished: bool,
    pub usage: Option<Usage>,
}

/// The mathematical value of a [`StreamEvent`].
pub struct StreamEventView {
    pub content: Option<Seq<char>>,
    pub tool_calls: Seq<ToolCallDeltaView>,
    pub finished: bool,
    pub usage: Option<Usage>,
}

impl DeepView for StreamEvent {
    type V = StreamEventView;

    open spec fn deep_view(&self) -> StreamEventView {
        StreamEventView {
            content: self.content.deep_view(),
            tool_calls: self.tool_calls.deep_view(),
            finished: self.finished,
            usage: self.usage,
        }
    }
}

/// An optional string member: absent or `null` reads as none, a string as
/// itself, anything else is unfit.
pub open spec fn optional_text(v: JsonValue) -> Option<Option<Seq<char>>> {
    match v {
        JsonValue::Null => Some(None),
        JsonValue::Text(t) => Some(Some(t)),
        _ => None,
    }
}

/// The function part of a streamed tool call, if `v` has its shape.
pub open spec fn function_delta_of(v: JsonValue) -> Option<FunctionDeltaView> {
    if v is Object {
        match (
            optional_text(v.member_or_null("name"@)),
            optional_text(v.member_or_null("arguments"@)),
        ) {
            (Some(name), Some(arguments)) => Some(FunctionDeltaView { name, arguments }),
            _ => None,
        }
    } else {
        None
    }
}

/// A streamed tool-call update, if `v` has its shape.
pub open spec fn tool_call_delta_of(v: JsonValue) -> Option<ToolCallDeltaView> {
    if !(v is Object) {
        None
    } else if v.member("index"@) is Some && v.member_or_null("index"@).unsigned() is None {
        None
    } else {
        match (optional_text(v.member_or_null("id"@)), optional_text(v.member_or_null("type"@))) {
            (Some(id), Some(_)) => {
                let f = v.member_or_null("function"@);
                if f is Null {
                    Some(ToolCallDeltaView { id, function: None })
                } else {
                    match function_delta_of(f) {
                        Some(function) => Some(ToolCallDeltaView { id, function: Some(function) }),
                        None => None,
                    }
                }
            },
            _ => None,
        }
    }
}

/// The tool-call updates listed in `v`: none when `v` is `null`, one for each
/// element when `v` is an array whose elements all have the shape.
pub open spec fn tool_call_deltas_of(v: JsonValue) -> Option<Seq<ToolCallDeltaView>> {
    match v {
        JsonValue::Null => Some(Seq::empty()),
        JsonValue::Array(items) => if forall|i: int|
            0 <= i < items.len() ==> tool_call_delta_of(#[trigger] items[i]) is Some {
            Some(Seq::new(items.len(), |i: int| tool_call_delta_of(items[i])->0))
        } else {
            None
        },
        _ => None,
    }
}

/// The usage report in `v`, if `v` has its shape: three counts, of which the
/// total is read and dropped.
pub open spec fn usage_of(v: JsonValue) -> Option<Usage> {
    if v is Object {
        match (
            v.member_or_null("prompt_tokens"@).small_unsigned(),
            v.member_or_null("completion_tokens"@).small_unsigned(),
            v.member_or_null("total_tokens"@).small_unsigned(),
        ) {
            (Some(input_tokens), Some(output_tokens), Some(_)) => Some(
                Usage { input_tokens, output_tokens },
            ),
            _ => None,
        }
    } else {
        None
    }
}

/// An optional usage report: none when `v` is `null`.
pub open spec fn optional_usage_of(v: JsonValue) -> Option<Option<Usage>> {
    if v is Null {
        Some(None)
    } else {
        match usage_of(v) {
            Some(u) => Some(Some(u)),
            None => None,
        }
    }
}

/// The update that one streamed choice carries, if `v` has the shape of a
/// choice. The event's usage is filled in by [`stream_event_of`].
pub open spec fn stream_choice_of(v: JsonValue) -> Option<StreamEventView> {
    if !(v is Object) {
        None
    } else {
        let delta = v.member_or_null("delta"@);
        if !(delta is Object) {
            None
        } else {
            match (
                optional_text(delta.member_or_null("content"@)),
                optional_text(delta.member_or_null("role"@)),
                tool_call_deltas_of(delta.member_or_null("tool_calls"@)),
                optional_text(v.member_or_null("finish_reason"@)),
            ) {
                (Some(content), Some(_), Some(tool_calls), Some(reason)) => Some(
                    StreamEventView { content, tool_calls, finished: reason is Some, usage: None },
                ),
                _ => None,
            }
        }
    }
}

/// What a streamed event says, if `v` has the shape of one: an object with an
/// array `choices` of well-shaped choices and an optional usage report. Only
/// the first choice is read.
pub open spec fn stream_event_of(v: JsonValue) -> Option<StreamEventView> {
    if !(v is Object) {
        None
    } else {
        match (
            v.member_or_null("choices"@).items(),
            optional_usage_of(v.member_or_null("usage"@)),
        ) {
            (Some(choices), Some(usage)) => if forall|i: int|
                0 <= i < choices.len() ==> stream_choice_of(#[trigger] choices[i]) is Some {
                if choices.len() > 0 {
                    let first = stream_choice_of(choices[0])->0;
                    Some(
                        StreamEventView {
                            content: first.content,
                            tool_calls: first.tool_calls,
                            finished: first.finished,
                            usage,
                        },
                    )
                } else {
                    Some(
                        StreamEventView {
                            content: None,
                            tool_calls: Seq::empty(),
                            finished: false,
                            usage,
                        },
                    )
                }
            } else {
                None
            },
            _ => None,
        }
    }
}

/// Reads the optional string member `key` of `obj`.
fn read_optional_text(obj: &Json, key: &str) -> (out: Option<Option<String>>)
    ensures
        out.deep_view() == optional_text(obj@.member_or_null(key@)),
{
    match obj.member(key) {
        None => Some(None),
        Some(v) => match v {
            Json::Null => Some(None),
            Json::Text(t) => Some(Some(t.clone())),
            _ => None,
        },
    }
}

/// Reads the member `key` of `obj` as a count of at most 32 bits.
fn read_count(obj: &Json, key: &str) -> (out: Option<u32>)
    ensures
        out == obj@.member_or_null(key@).small_unsigned(),
{
    match obj.member(key) {
        None => None,
        Some(v) => v.as_u32(),
    }
}

/// Reads the function part of a streamed tool call.
pub fn decode_function_delta(v: &Json) -> (out: Option<FunctionDelta>)
    ensures
        out.deep_view() == function_delta_of(v@),
{
    if !v.is_object() {
        return None;
    }
    let name = match read_optional_text(v, "name") {
        Some(name) => name,
        None => { return None; },
    };
    let arguments = match read_optional_text(v, "arguments") {
        Some(arguments) => arguments,
        None => { return None; },
    };
    Some(FunctionDelta { name, arguments })
}

/// Reads one streamed tool-call update.
pub fn decode_tool_call_delta(v: &Json) -> (out: Option<ToolCallDelta>)
    ensures
        out.deep_view() == tool_call_delta_of(v@),
{
    if !v.is_object() {
        return None;
    }
    match v.member("index") {
        Some(index) => {
            if index.as_u64().is_none() {
                return None;
            }
        },
        None => {},
    }
    let id = match read_optional_text(v, "id") {
        Some(id) => id,
        None => { return None; },
    };
    if read_optional_text(v, "type").is_none() {
        return None;
    }
    let function = match v.member("function") {
        None => None,
        Some(f) => {
            if f.is_null() {
                None
            } else {
                match decode_function_delta(f) {
                    Some(function) => Some(function),
                    None => { return None; },
                }
            }
        },
    };
    Some(ToolCallDelta { id, function })
}

/// Reads the list of tool-call updates of a streamed choice.
#[verifier::loop_isolation(false)]
fn decode_tool_call_deltas(v: Option<&Json>) -> (out: Option<Vec<ToolCallDelta>>)
    ensures
        out.deep_view() == tool_call_deltas_of(
            match v {
                Some(j) => j@,
                None => JsonValue::Null,
            },
        ),
{
    let items = match v {
        None => { return Some(Vec::new()); },
        Some(j) => {
            if j.is_null() {
                return Some(Vec::new());
            }
            match j.as_items() {
                Some(items) => items,
                None => { return None; },
            }
        },
    };
    let mut out: Vec<ToolCallDelta> = Vec::new();
    let mut i: usize = 0;
    while i < items.len()
        invariant
            0 <= i <= items.len(),
            out.len() == i,
            forall|k: int|
                0 <= k < i ==> tool_call_delta_of(#[trigger] items.deep_view()[k]) == Some(
                    out.deep_view()[k],
                ),
        decreases items.len() - i,
    {
        match decode_tool_call_delta(&items[i]) {
            Some(delta) => {
                out.push(delta);
            },
            None => {
                assert(tool_call_delta_of(items.deep_view()[i as int]) is None);
                return None;
            },
        }
        i += 1;
    }
    assert(out.deep_view() =~= Seq::new(
        items.deep_view().len(),
        |k: int| tool_call_delta_of(items.deep_view()[k])->0,
    ));
    Some(out)
}

/// Reads a usage report.
pub fn decode_usage(v: &Json) -> (out: Option<Usage>)
    ensures
        out == usage_of(v@),
{
    if !v.is_object() {
        return None;
    }
    let input_tokens = match read_count(v, "prompt_tokens") {
        Some(n) => n,
        None => { return None; },
    };
    let output_tokens = match read_count(v, "completion_tokens") {
        Some(n) => n,
        None => { return None; },
    };
    if read_count(v, "total_tokens").is_none() {
        return None;
    }
    Some(Usage { input_tokens, output_tokens })
}

/// Reads the optional usage report that is the member `key` of `obj`.
fn read_optional_usage(obj: &Json, key: &str) -> (out: Option<Option<Usage>>)
    ensures
        out == optional_usage_of(obj@.member_or_null(key@)),
{
    match obj.member(key) {
        None => Some(None),
        Some(v) => {
            if v.is_null() {
                Some(None)
            } else {
                match decode_usage(v) {
                    Some(u) => Some(Some(u)),
                    None => None,
                }
            }
        },
    }
}

/// Reads one streamed choice.
fn decode_stream_choice(v: &Json) -> (out: Option<StreamEvent>)
    ensures
        out.deep_view() == stream_choice_of(v@),
{
    if !v.is_object() {
        return None;
    }
    let delta = match v.member("delta") {
        Some(delta) => delta,
        None => { return None; },
    };
    if !delta.is_object() {
        return None;
    }
    let content = match read_optional_text(delta, "content") {
        Some(content) => content,
        None => { return None; },
    };
    if read_optional_text(delta, "role").is_none() {
        return None;
    }
    let tool_calls = match decode_tool_call_deltas(delta.member("tool_calls")) {
        Some(tool_calls) => tool_calls,
        None => { return None; },
    };
    let reason = match read_optional_text(v, "finish_reason") {
        Some(reason) => reason,
        None => { return None; },
    };
    Some(StreamEvent { content, tool_calls, finished: reason.is_some(), usage: None })
}

/// Reads one streamed event.
#[verifier::loop_isolation(false)]
pub fn decode_stream_event(v: &Json) -> (out: Option<StreamEvent>)
    ensures
        out.deep_view() == stream_event_of(v@),
{
    if !v.is_object() {
        return None;
    }
    let choices = match v.member("choices") {
        Some(choices) => match choices.as_items() {
            Some(items) => items,
            None => { return None; },
        },
        None => { return None; },
    };
    let usage = match read_optional_usage(v, "usage") {
        Some(usage) => usage,
        None => { return None; },
    };
    let mut first: Option<StreamEvent> = None;
    let mut i: usize = 0;
    while i < choices.len()
        invariant
            0 <= i <= choices.len(),
            forall|k: int|
                0 <= k < i ==> stream_choice_of(#[trigger] choices.deep_view()[k]) is Some,
            i == 0 ==> first is None,
            i > 0 ==> first.deep_view() == stream_choice_of(choices.deep_view()[0]),
        decreases choices.len() - i,
    {
        match decode_stream_choice(&choices[i]) {
            Some(choice) => {
                if i == 0 {
                    first = Some(choice);
                }
            },
            None => {
                assert(stream_choice_of(choices.deep_view()[i as int]) is None);
                return None;
            },
        }
        i += 1;
    }
    match first {
        Some(choice) => Some(
            StreamEvent {
                content: choice.content,
                tool_calls: choice.tool_calls,
                finished: choice.finished,
                usage,
            },
        ),
        None => {
            let tool_calls: Vec<ToolCallDelta> = Vec::new();
            assert(tool_calls.deep_view() =~= Seq::empty());
            Some(StreamEvent { content: None, tool_calls, finished: false, usage })
        },
    }
}

/// One tool call of a complete response.
#[derive(Debug, Clone, PartialEq, Eq)]
pub struct OpenAIToolCall {
    pub id: String,
    pub name: String,
    pub arguments: String,
}

/// The mathematical value of an [`OpenAIToolCall`].
pub struct ToolCallView {
    pub id: Seq<char>,
    pub name: Seq<char>,
    pub arguments: Seq<char>,
}

impl DeepView for OpenAIToolCall {
    type V = ToolCallView;

    open spec fn deep_view(&self) -> ToolCallView {
        ToolCallView { id: self.id@, name: self.name@, arguments: self.arguments@ }
    }
}

/// What a complete response says: the message of its first choice and the
/// usage report.
#[derive(Debug, Clone, PartialEq, Eq)]
pub struct Completion {
    pub content: String,
    pub tool_calls: Vec<OpenAIToolCall>,
    pub usage: Usage,
}

/// The mathematical value of a [`Completion`].
pub struct CompletionView {
    pub content: Seq<char>,
    pub tool_calls: Seq<ToolCallView>,
    pub usage: Usage,
}

impl DeepView for Completion {
    type V = CompletionView;

    open spec fn deep_view(&self) -> CompletionView {
        CompletionView {
            content: self.content@,
            tool_calls: self.tool_calls.deep_view(),
            usage: self.usage,
        }
    }
}

/// A tool call of a complete response, if `v` has its shape: an identifier, a
/// type, and a function with a name and arguments, all of them strings.
pub open spec fn tool_call_of(v: JsonValue) -> Option<ToolCallView> {
    let function = v.member_or_null("function"@);
    if v is Object && function is Object {
        match (
            v.member_or_null("id"@).text(),
            v.member_or_null("type"@).text(),
            function.member_or_null("name"@).text(),
            function.member_or_null("arguments"@).text(),
        ) {
            (Some(id), Some(_), Some(name), Some(arguments)) => Some(
                ToolCallView { id, name, arguments },
            ),
            _ => None,
        }
    } else {
        None
    }
}

/// The tool calls listed in `v`: none when `v` is `null`, one for each element
/// when `v` is an array whose elements all have the shape.
pub open spec fn tool_calls_of(v: JsonValue) -> Option<Seq<ToolCallView>> {
    match v {
        JsonValue::Null => Some(Seq::empty()),
        JsonValue::Array(items) => if forall|i: int|
            0 <= i < items.len() ==> tool_call_of(#[trigger] items[i]) is Some {
            Some(Seq::new(items.len(), |i: int| tool_call_of(items[i])->0))
        } else {
            None
        },
        _ => None,
    }
}

/// The message of one choice of a complete response, if `v` has the shape of
/// a choice: its content, which is empty when the member is absent, and its
/// tool calls. The usage is filled in by [`completion_of`].
pub open spec fn choice_of(v: JsonValue) -> Option<CompletionView> {
    let message = v.member_or_null("message"@);
    if v is Object && message is Object && message.member_or_null("role"@) is Text {
        let content = match message.member("content"@) {
            Some(c) => c.text(),
            None => Some(Seq::empty()),
        };
        match (content, tool_calls_of(message.member_or_null("tool_calls"@))) {
            (Some(content), Some(tool_calls)) => Some(
                CompletionView {
                    content,
                    tool_calls,
                    usage: Usage { input_tokens: 0, output_tokens: 0 },
                },
            ),
            _ => None,
        }
    } else {
        None
    }
}

/// What a complete response says, if `v` has the shape of one: an object with
/// a non-empty array `choices` of well-shaped choices and a usage report.
/// Only the first choice is read.
pub open spec fn completion_of(v: JsonValue) -> Option<CompletionView> {
    if !(v is Object) {
        None
    } else {
        match (v.member_or_null("choices"@).items(), usage_of(v.member_or_null("usage"@))) {
            (Some(choices), Some(usage)) => if choices.len() > 0 && forall|i: int|
                0 <= i < choices.len() ==> choice_of(#[trigger] choices[i]) is Some {
                let first = choice_of(choices[0])->0;
                Some(CompletionView { content: first.content, tool_calls: first.tool_calls, usage })
            } else {
                None
            },
            _ => None,
        }
    }
}

/// Reads the string member `key` of `obj`, which must be there.
fn read_text(obj: &Json, key: &str) -> (out: Option<String>)
    ensures
        out.deep_view() == obj@.member_or_null(key@).text(),
{
    match obj.member(key) {
        Some(v) => match v.as_text() {
            Some(t) => Some(t.to_owned()),
            None => None,
        },
        None => None,
    }
}

/// Reads one tool call of a complete response.
pub fn decode_tool_call(v: &Json) -> (out: Option<OpenAIToolCall>)
    ensures
        out.deep_view() == tool_call_of(v@),
{
    if !v.is_object() {
        return None;
    }
    let function = match v.member("function") {
        Some(function) => function,
        None => { return None; },
    };
    if !function.is_object() {
        return None;
    }
    let id = match read_text(v, "id") {
        Some(id) => id,
        None => { return None; },
    };
    if read_text(v, "type").is_none() {
        return None;
    }
    let name = match read_text(function, "name") {
        Some(name) => name,
        None => { return None; },
    };
    let arguments = match read_text(function, "arguments") {
        Some(arguments) => arguments,
        None => { return None; },
    };
    Some(OpenAIToolCall { id, name, arguments })
}

/// Reads the list of tool calls of a message.
#[verifier::loop_isolation(false)]
fn decode_tool_calls(v: Option<&Json>) -> (out: Option<Vec<OpenAIToolCall>>)
    ensures
        out.deep_view() == tool_calls_of(
            match v {
                Some(j) => j@,
                None => JsonValue::Null,
            },
        ),
{
    let items = match v {
        None => { return Some(Vec::new()); },
        Some(j) => {
            if j.is_null() {
                return Some(Vec::new());
            }
            match j.as_items() {
                Some(items) => items,
                None => { return None; },
            }
        },
    };
    let mut out: Vec<OpenAIToolCall> = Vec::new();
    let mut i: usize = 0;
    while i < items.len()
        invariant
            0 <= i <= items.len(),
            out.len() == i,
            forall|k: int|
                0 <= k < i ==> tool_call_of(#[trigger] items.deep_view()[k]) == Some(
                    out.deep_view()[k],
                ),
        decreases items.len() - i,
    {
        match decode_tool_call(&items[i]) {
            Some(call) => {
                out.push(call);
            },
            None => {
                assert(tool_call_of(items.deep_view()[i as int]) is None);
                return None;
            },
        }
        i += 1;
    }
    assert(out.deep_view() =~= Seq::new(
        items.deep_view().len(),
        |k: int| tool_call_of(items.deep_view()[k])->0,
    ));
    Some(out)
}

/// Reads one choice of a complete response.
fn decode_choice(v: &Json) -> (out: Option<Completion>)
    ensures
        out.deep_view() == choice_of(v@),
{
    if !v.is_object() {
        return None;
    }
    let message = match v.member("message") {
        Some(message) => message,
        None => { return None; },
    };
    if !message.is_object() {
        return None;
    }
    if read_text(message, "role").is_none() {
        return None;
    }
    let content = match message.member("content") {
        Some(c) => match c.as_text() {
            Some(t) => t.to_owned(),
            None => { return None; },
        },
        None => String::new(),
    };
    let tool_calls = match decode_tool_calls(message.member("tool_calls")) {
        Some(tool_calls) => tool_calls,
        None => { return None; },
    };
    Some(Completion { content, tool_calls, usage: Usage::unknown() })
}

/// Reads a complete response.
#[verifier::loop_isolation(false)]
pub fn decode_completion(v: &Json) -> (out: Option<Completion>)
    ensures
        out.deep_view() == completion_of(v@),
{
    if !v.is_object() {
        return None;
    }
    let choices = match v.member("choices") {
        Some(choices) => match choices.as_items() {
            Some(items) => items,
            None => { return None; },
        },
        None => { return None; },
    };
    let usage = match v.member("usage") {
        Some(u) => match decode_usage(u) {
            Some(usage) => usage,
            None => { return None; },
        },
        None => { return None; },
    };
    let mut first: Option<Completion> = None;
    let mut i: usize = 0;
    while i < choices.len()
        invariant
            0 <= i <= choices.len(),
            forall|k: int| 0 <= k < i ==> choice_of(#[trigger] choices.deep_view()[k]) is Some,
            i == 0 ==> first is None,
            i > 0 ==> first.deep_view() == choice_of(choices.deep_view()[0]),
        decreases choices.len() - i,
    {
        match decode_choice(&choices[i]) {
            Some(choice) => {
                if i == 0 {
                    first = Some(choice);
                }
            },
            None => {
                assert(choice_of(choices.deep_view()[i as int]) is None);
                return None;
            },
        }
        i += 1;
    }
    match first {
        Some(choice) => Some(
            Completion { content: choice.content, tool_calls: choice.tool_calls, usage },
        ),
        None => None,
    }
}

} // verus!
