//! The adapter for OpenAI-style services: the wire request it builds from a
//! uniform request, and how it reads the service's failures.

use crate::error::{
    classified_openai, classify_openai, ApiErrorContext, HttpStatus,
};
use crate::json::{json_value, Json, JsonValue};
use crate::rate_limit::{openai_rate_limits, OpenAIRateLimitInfo, RateLimitHandler};
use crate::retry::{RetryDriver, MAX_RETRIES};
use crate::types::{LLMRequest, Message, MessageContent, MessageRole, ToolDefinition};
use vstd::prelude::*;
use vstd::string::StringExecFns;

verus! {

/// The options of a streamed request.
#[derive(Debug, Clone, Copy, PartialEq, Eq, Structural)]
pub struct StreamOptions {
    pub include_usage: bool,
}

/// One message of a wire request.
#[derive(Debug, Clone, PartialEq, Eq)]
pub struct OpenAIChatMessage {
    pub role: String,
    pub content: String,
}

/// The mathematical value of an [`OpenAIChatMessage`].
pub struct ChatMessageView {
    pub role: Seq<char>,
    pub content: Seq<char>,
}

impl DeepView for OpenAIChatMessage {
    type V = ChatMessageView;

    open spec fn deep_view(&self) -> ChatMessageView {
        ChatMessageView { role: self.role@, content: self.content@ }
    }
}

/// A wire request. The sampling temperature is fixed by the transport and is
/// no part of this value.
#[derive(Debug, Clone, PartialEq, Eq)]
pub struct OpenAIRequest {
    pub model: String,
    pub messages: Vec<OpenAIChatMessage>,
    pub stream: Option<bool>,
    pub tools: Option<Vec<Json>>,
    pub tool_choice: Option<Json>,
    pub stream_options: Option<StreamOptions>,
}

/// The mathematical value of an [`OpenAIRequest`].
pub struct RequestView {
    pub model: Seq<char>,
    pub messages: Seq<ChatMessageView>,
    pub stream: Option<bool>,
    pub tools: Option<Seq<JsonValue>>,
    pub tool_choice: Option<JsonValue>,
    pub stream_options: Option<StreamOptions>,
}

impl DeepView for OpenAIRequest {
    type V = RequestView;

    open spec fn deep_view(&self) -> RequestView {
        RequestView {
            model: self.model@,
            messages: self.messages.deep_view(),
            stream: self.stream,
            tools: self.tools.deep_view(),
            tool_choice: self.tool_choice.deep_view(),
            stream_options: self.stream_options,
        }
    }
}

impl OpenAIRequest {
    /// This request, asking for a streamed response that reports usage.
    pub fn into_streaming(self) -> (out: OpenAIRequest)
        ensures
            out.deep_view() == (RequestView {
                stream: Some(true),
                stream_options: Some(StreamOptions { include_usage: true }),
                ..self.deep_view()
            }),
    {
        let OpenAIRequest { model, messages, stream: _, tools, tool_choice, stream_options: _ } =
            self;
        OpenAIRequest {
            model,
            messages,
            stream: Some(true),
            tools,
            tool_choice,
            stream_options: Some(StreamOptions { include_usage: true }),
        }
    }

    /// This request, asking for a complete response.
    pub fn into_non_streaming(self) -> (out: OpenAIRequest)
        ensures
            out.deep_view() == (RequestView {
                stream: None,
                stream_options: None,
                ..self.deep_view()
            }),
    {
        let OpenAIRequest { model, messages, stream: _, tools, tool_choice, stream_options: _ } =
            self;
        OpenAIRequest { model, messages, stream: None, tools, tool_choice, stream_options: None }
    }
}

/// The text sent in place of content that is not plain text.
pub open spec fn structured_placeholder() -> Seq<char> {
    "[Structured content not supported]"@
}

/// The wire form of a message of the conversation.
pub open spec fn converted_message(message: Message) -> ChatMessageView {
    ChatMessageView {
        role: match message.role {
            MessageRole::User => "user"@,
            MessageRole::Assistant => "assistant"@,
        },
        content: match message.content {
            MessageContent::Text(text) => text@,
            MessageContent::Structured(_) => structured_placeholder(),
        },
    }
}

/// The wire form of a tool descriptor: a function with a name, a description
/// and a parameter schema.
pub open spec fn tool_json(tool: ToolDefinition) -> JsonValue {
    JsonValue::Object(
        seq![
            ("type"@, JsonValue::Text("function"@)),
            (
                "function"@,
                JsonValue::Object(
                    seq![
                        ("name"@, JsonValue::Text(tool.name@)),
                        ("description"@, JsonValue::Text(tool.description@)),
                        ("parameters"@, tool.parameters@),
                    ],
                ),
            ),
        ],
    )
}

/// The wire request for a uniform request: the system prompt as the first
/// message, then the conversation; the tools, if any are supplied, in their
/// wire form, and with them the demand that one be used.
pub open spec fn request_for(model: Seq<char>, request: LLMRequest) -> RequestView {
    RequestView {
        model,
        messages: seq![ChatMessageView { role: "system"@, content: request.system_prompt@ }]
            + Seq::new(request.messages@.len(), |i: int| converted_message(request.messages@[i])),
        stream: None,
        tools: match request.tools {
            Some(tools) => Some(Seq::new(tools@.len(), |i: int| tool_json(tools@[i]))),
            None => None,
        },
        tool_choice: match request.tools {
            Some(_) => Some(JsonValue::Text("required"@)),
            None => None,
        },
        stream_options: None,
    }
}

/// The wire form of a tool descriptor.
pub fn tool_to_json(tool: &ToolDefinition) -> (out: Json)
    ensures
        out@ == tool_json(*tool),
{
    let mut function: Vec<(String, Json)> = Vec::new();
    function.push((String::from_str("name"), Json::Text(tool.name.clone())));
    function.push((String::from_str("description"), Json::Text(tool.description.clone())));
    function.push((String::from_str("parameters"), tool.parameters.duplicate()));
    let function = Json::Object(function);
    let mut members: Vec<(String, Json)> = Vec::new();
    members.push((String::from_str("type"), Json::Text(String::from_str("function"))));
    members.push((String::from_str("function"), function));
    let out = Json::Object(members);
    proof {
        reveal_with_fuel(json_value, 3);
        assert(function@->Object_0 =~= tool_json(*tool)->Object_0[1].1->Object_0);
        assert(out@->Object_0 =~= tool_json(*tool)->Object_0);
    }
    out
}

/// The settings of a client of an OpenAI-style service.
#[derive(Debug, Clone, PartialEq, Eq)]
pub struct OpenAIClient {
    api_key: String,
    base_url: String,
    model: String,
}

impl OpenAIClient {
    /// The key that authorizes the requests.
    pub closed spec fn api_key_text(&self) -> Seq<char> {
        self.api_key@
    }

    /// The address under which the service is reached.
    pub closed spec fn base_url_text(&self) -> Seq<char> {
        self.base_url@
    }

    /// The model that the requests name.
    pub closed spec fn model_text(&self) -> Seq<char> {
        self.model@
    }

    /// A client of the service at its public address.
    pub fn new(api_key: String, model: String) -> (client: OpenAIClient)
        ensures
            client.api_key_text() == api_key@,
            client.model_text() == model@,
            client.base_url_text() == "https://api.openai.com/v1"@,
    {
        OpenAIClient { api_key, base_url: String::from_str("https://api.openai.com/v1"), model }
    }

    /// A client of the service at `base_url`.
    pub fn new_with_base_url(api_key: String, model: String, base_url: String) -> (client:
        OpenAIClient)
        ensures
            client.api_key_text() == api_key@,
            client.model_text() == model@,
            client.base_url_text() == base_url@,
    {
        OpenAIClient { api_key, base_url, model }
    }

    /// The model that the requests name.
    pub fn model(&self) -> (model: &str)
        ensures
            model@ == self.model_text(),
    {
        self.model.as_str()
    }

    /// The address to which chat completions are posted.
    pub fn get_url(&self) -> (url: String)
        ensures
            url@ == self.base_url_text() + "/chat/completions"@,
    {
        let mut url = self.base_url.clone();
        url.append("/chat/completions");
        url
    }

    /// The value of the authorization header: the key as a bearer token.
    pub fn authorization(&self) -> (value: String)
        ensures
            value@ == "Bearer "@ + self.api_key_text(),
    {
        let mut value = String::from_str("Bearer ");
        value.append(self.api_key.as_str());
        value
    }

    /// The wire form of a message of the conversation. Content that is not
    /// plain text is replaced by a fixed text.
    pub fn convert_message(message: &Message) -> (out: OpenAIChatMessage)
        ensures
            out.deep_view() == converted_message(*message),
    {
        let role = match message.role {
            MessageRole::User => String::from_str("user"),
            MessageRole::Assistant => String::from_str("assistant"),
        };
        let content = match &message.content {
            MessageContent::Text(text) => text.clone(),
            MessageContent::Structured(_) => String::from_str("[Structured content not supported]"),
        };
        OpenAIChatMessage { role, content }
    }

    /// The wire request for a uniform request.
    #[verifier::loop_isolation(false)]
    pub fn build_request(&self, request: &LLMRequest) -> (out: OpenAIRequest)
        ensures
            out.deep_view() == request_for(self.model_text(), *request),
    {
        let mut messages: Vec<OpenAIChatMessage> = Vec::new();
        messages.push(
            OpenAIChatMessage {
                role: String::from_str("system"),
                content: request.system_prompt.clone(),
            },
        );
        let mut i: usize = 0;
        while i < request.messages.len()
            invariant
                0 <= i <= request.messages.len(),
                messages.len() == i + 1,
                messages.deep_view()[0] == (ChatMessageView {
                    role: "system"@,
                    content: request.system_prompt@,
                }),
                forall|k: int|
                    1 <= k <= i ==> #[trigger] messages.deep_view()[k] == converted_message(
                        request.messages@[k - 1],
                    ),
            decreases request.messages.len() - i,
        {
            let ghost before = messages.deep_view();
            let message = Self::convert_message(&request.messages[i]);
            messages.push(message);
            assert(messages.deep_view() =~= before.push(message.deep_view()));
            i += 1;
        }
        let tools = match &request.tools {
            Some(tools) => {
                let mut wire: Vec<Json> = Vec::new();
                let mut j: usize = 0;
                while j < tools.len()
                    invariant
                        0 <= j <= tools.len(),
                        wire.len() == j,
                        forall|k: int|
                            0 <= k < j ==> (#[trigger] wire@[k])@ == tool_json(tools@[k]),
                    decreases tools.len() - j,
                {
                    wire.push(tool_to_json(&tools[j]));
                    j += 1;
                }
                assert(wire.deep_view() =~= Seq::new(tools@.len(), |i: int| tool_json(tools@[i])));
                Some(wire)
            },
            None => None,
        };
        let tool_choice = match &request.tools {
            Some(_) => Some(Json::Text(String::from_str("required"))),
            None => None,
        };
        let out = OpenAIRequest {
            model: self.model.clone(),
            messages,
            stream: None,
            tools,
            tool_choice,
            stream_options: None,
        };
        proof {
            let expected = request_for(self.model_text(), *request);
            assert(out.deep_view().messages =~= expected.messages) by {
                assert forall|k: int| 0 <= k < expected.messages.len() implies out.deep_view()
                    .messages[k] == expected.messages[k] by {
                    if k > 0 {
                        assert(messages.deep_view()[k] == converted_message(
                            request.messages@[k - 1],
                        ));
                    }
                }
            }
        }
        out
    }

    /// Checks the status of a response of the service. A response that
    /// reports success passes; any other is classified, and the failure
    /// carries the rate-limit telemetry of the response's headers.
    pub fn check_response_error(
        status: HttpStatus,
        headers: &reqwest::header::HeaderMap,
        body: &str,
    ) -> (out: Result<(), ApiErrorContext<OpenAIRateLimitInfo>>)
        ensures
            match out {
                Ok(_) => 200 <= status.value() <= 299,
                Err(context) => {
                    &&& !(200 <= status.value() <= 299)
                    &&& context.error.deep_view() == classified_openai(status.value(), body@)
                    &&& context.rate_limits == Some(openai_rate_limits(*headers))
                    &&& context.rate_limits->0.well_formed()
                },
            },
    {
        if status.is_success() {
            return Ok(());
        }
        let rate_limits = OpenAIRateLimitInfo::from_headers(headers);
        let error = classify_openai(status, body);
        Err(ApiErrorContext { error, rate_limits: Some(rate_limits) })
    }

    /// The retry state of a new request: no retry made, three allowed.
    pub fn retry_driver() -> (driver: RetryDriver)
        ensures
            driver == (RetryDriver { attempts: 0, max_retries: MAX_RETRIES }),
            driver.well_formed(),
    {
        RetryDriver::new(MAX_RETRIES)
    }
}

} // verus!
