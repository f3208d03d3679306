//! The provider-independent data contract: what a caller asks for and what it
//! gets back, whichever vendor served the request.

use crate::json::{Json, JsonValue};
use vstd::prelude::*;

verus! {

/// Token counts as the vendor reported them; zero stands for "not reported".
#[derive(Debug, Clone, Copy, PartialEq, Eq, Structural)]
pub struct Usage {
    pub input_tokens: u32,
    pub output_tokens: u32,
}

impl Usage {
    /// The usage of a response whose vendor reported none.
    pub fn unknown() -> (usage: Usage)
        ensures
            usage == (Usage { input_tokens: 0, output_tokens: 0 }),
    {
        Usage { input_tokens: 0, output_tokens: 0 }
    }
}

/// One piece of an assistant turn.
#[derive(Debug, Clone, PartialEq, Eq)]
pub enum ContentBlock {
    Text { text: String },
    ToolUse { id: String, name: String, input: Json },
}

/// The mathematical value of a [`ContentBlock`].
pub enum ContentBlockView {
    Text { text: Seq<char> },
    ToolUse { id: Seq<char>, name: Seq<char>, input: JsonValue },
}

impl DeepView for ContentBlock {
    type V = ContentBlockView;

    open spec fn deep_view(&self) -> ContentBlockView {
        match self {
            ContentBlock::Text { text } => ContentBlockView::Text { text: text@ },
            ContentBlock::ToolUse { id, name, input } => ContentBlockView::ToolUse {
                id: id@,
                name: name@,
                input: input@,
            },
        }
    }
}

impl View for ContentBlock {
    type V = ContentBlockView;

    open spec fn view(&self) -> ContentBlockView {
        self.deep_view()
    }
}

/// A complete assistant turn: at most one text block, then the tool
/// invocations in the order in which the vendor opened them.
#[derive(Debug, Clone, PartialEq, Eq)]
pub struct LLMResponse {
    pub content: Vec<ContentBlock>,
    pub usage: Usage,
}

/// The mathematical value of an [`LLMResponse`].
pub struct ResponseView {
    pub content: Seq<ContentBlockView>,
    pub usage: Usage,
}

impl DeepView for LLMResponse {
    type V = ResponseView;

    open spec fn deep_view(&self) -> ResponseView {
        ResponseView { content: self.content.deep_view(), usage: self.usage }
    }
}

impl View for LLMResponse {
    type V = ResponseView;

    open spec fn view(&self) -> ResponseView {
        self.deep_view()
    }
}

/// The response made of `text`, when it is not empty, followed by `tools`.
pub open spec fn assemble(
    text: Seq<char>,
    tools: Seq<ContentBlockView>,
    usage: Option<Usage>,
) -> ResponseView {
    ResponseView {
        content: if text.len() > 0 {
            seq![ContentBlockView::Text { text }] + tools
        } else {
            tools
        },
        usage: match usage {
            Some(u) => u,
            None => Usage { input_tokens: 0, output_tokens: 0 },
        },
    }
}

/// Who wrote a message of the conversation.
#[derive(Debug, Clone, Copy, PartialEq, Eq, Structural)]
pub enum MessageRole {
    User,
    Assistant,
}

/// What a message of the conversation holds.
#[derive(Debug, Clone, PartialEq, Eq)]
pub enum MessageContent {
    Text(String),
    Structured(Vec<ContentBlock>),
}

/// One message of the conversation, owned by the caller and only read here.
#[derive(Debug, Clone, PartialEq, Eq)]
pub struct Message {
    pub role: MessageRole,
    pub content: MessageContent,
}

/// A tool that the model may ask to have invoked.
#[derive(Debug, Clone, PartialEq, Eq)]
pub struct ToolDefinition {
    pub name: String,
    pub description: String,
    pub parameters: Json,
}

/// What a caller asks of a provider.
#[derive(Debug, Clone, PartialEq, Eq)]
pub struct LLMRequest {
    pub messages: Vec<Message>,
    pub system_prompt: String,
    pub tools: Option<Vec<ToolDefinition>>,
}

} // verus!
