use llm_client::json::Json;
use llm_client::openai::{
    tool_to_json, OpenAIChatMessage, OpenAIClient, OpenAIRequest, StreamOptions,
};
use llm_client::types::{
    ContentBlock, LLMRequest, Message, MessageContent, MessageRole, ToolDefinition,
};

fn client() -> OpenAIClient {
    OpenAIClient::new("SECRET-REDACTED".to_string(), "gpt-4o".to_string())
}

fn read_file_tool() -> ToolDefinition {
    ToolDefinition {
        name: "read_file".to_string(),
        description: "Reads a file".to_string(),
        parameters: Json::parse("{\"type\":\"object\",\"properties\":{\"path\":{\"type\":\"string\"}}}").unwrap(),
    }
}

fn chat(role: &str, content: &str) -> OpenAIChatMessage {
    OpenAIChatMessage { role: role.to_string(), content: content.to_string() }
}

#[test]
fn url_of_the_public_service() {
    assert_eq!(client().get_url(), "https://api.openai.com/v1/chat/completions");
    assert_eq!(client().model(), "gpt-4o");
}

#[test]
fn url_of_another_base() {
    let client = OpenAIClient::new_with_base_url(
        "k".to_string(),
        "m".to_string(),
        "http://localhost:8080".to_string(),
    );
    assert_eq!(client.get_url(), "http://localhost:8080/chat/completions");
    assert_eq!(client.model(), "m");
}

#[test]
fn key_is_sent_as_bearer_token() {
    assert_eq!(client().authorization(), "Bearer SECRET-REDACTED");
}

#[test]
fn messages_are_converted() {
    let user = Message { role: MessageRole::User, content: MessageContent::Text("hi".to_string()) };
    assert_eq!(OpenAIClient::convert_message(&user), chat("user", "hi"));
    let assistant = Message {
        role: MessageRole::Assistant,
        content: MessageContent::Structured(vec![ContentBlock::Text { text: "x".to_string() }]),
    };
    assert_eq!(
        OpenAIClient::convert_message(&assistant),
        chat("assistant", "[Structured content not supported]")
    );
}

#[test]
fn tool_is_described_as_a_function() {
    let tool = read_file_tool();
    assert_eq!(
        tool_to_json(&tool),
        Json::Object(vec![
            ("type".to_string(), Json::Text("function".to_string())),
            (
                "function".to_string(),
                Json::Object(vec![
                    ("name".to_string(), Json::Text("read_file".to_string())),
                    ("description".to_string(), Json::Text("Reads a file".to_string())),
                    ("parameters".to_string(), tool.parameters.duplicate()),
                ]),
            ),
        ])
    );
}

#[test]
fn request_without_tools() {
    let request = LLMRequest {
        messages: vec![
            Message { role: MessageRole::User, content: MessageContent::Text("q".to_string()) },
            Message { role: MessageRole::Assistant, content: MessageContent::Text("a".to_string()) },
        ],
        system_prompt: "be brief".to_string(),
        tools: None,
    };
    assert_eq!(
        client().build_request(&request),
        OpenAIRequest {
            model: "gpt-4o".to_string(),
            messages: vec![chat("system", "be brief"), chat("user", "q"), chat("assistant", "a")],
            stream: None,
            tools: None,
            tool_choice: None,
            stream_options: None,
        }
    );
}

#[test]
fn request_with_tools_requires_their_use() {
    let request = LLMRequest {
        messages: vec![],
        system_prompt: "".to_string(),
        tools: Some(vec![read_file_tool()]),
    };
    let wire = client().build_request(&request);
    assert_eq!(wire.messages, vec![chat("system", "")]);
    assert_eq!(wire.tools, Some(vec![tool_to_json(&read_file_tool())]));
    assert_eq!(wire.tool_choice, Some(Json::Text("required".to_string())));
}

#[test]
fn request_with_empty_tool_list_still_requires_tool_use() {
    let request = LLMRequest { messages: vec![], system_prompt: "s".to_string(), tools: Some(vec![]) };
    let wire = client().build_request(&request);
    assert_eq!(wire.tools, Some(vec![]));
    assert_eq!(wire.tool_choice, Some(Json::Text("required".to_string())));
}

#[test]
fn streaming_request_asks_for_usage() {
    let request = LLMRequest { messages: vec![], system_prompt: "s".to_string(), tools: None };
    let wire = client().build_request(&request).into_streaming();
    assert_eq!(wire.stream, Some(true));
    assert_eq!(wire.stream_options, Some(StreamOptions { include_usage: true }));
    assert_eq!(wire.messages, vec![chat("system", "s")]);
    assert_eq!(wire.model, "gpt-4o");
}

#[test]
fn non_streaming_request_drops_the_stream_settings() {
    let request = LLMRequest {
        messages: vec![],
        system_prompt: "s".to_string(),
        tools: Some(vec![read_file_tool()]),
    };
    let wire = client().build_request(&request).into_streaming().into_non_streaming();
    assert_eq!(wire, client().build_request(&request));
}
