use llm_client::decode::{decode_response, response_from_completion};
use llm_client::json::Json;
use llm_client::stream_model::DecodeError;
use llm_client::types::{ContentBlock, LLMResponse, Usage};
use llm_client::wire::{
    decode_completion, decode_stream_event, decode_tool_call_delta, decode_usage, Completion,
    FunctionDelta, OpenAIToolCall, StreamEvent, ToolCallDelta,
};

fn usage_json() -> &'static str {
    "\"usage\":{\"prompt_tokens\":11,\"completion_tokens\":7,\"total_tokens\":18}"
}

#[test]
fn text_response_is_decoded() {
    let body = format!(
        "{{\"id\":\"x\",\"choices\":[{{\"index\":0,\"message\":{{\"role\":\"assistant\",\"content\":\"Hello\"}}}}],{}}}",
        usage_json()
    );
    assert_eq!(
        decode_response(&body),
        Ok(LLMResponse {
            content: vec![ContentBlock::Text { text: "Hello".to_string() }],
            usage: Usage { input_tokens: 11, output_tokens: 7 },
        })
    );
}

#[test]
fn tool_calls_become_blocks_in_array_order() {
    let body = format!(
        "{{\"choices\":[{{\"message\":{{\"role\":\"assistant\",\"content\":\"\",\"tool_calls\":[{{\"id\":\"call_1\",\"type\":\"function\",\"function\":{{\"name\":\"read_file\",\"arguments\":\"{{\\\"path\\\": \\\"a.txt\\\"}}\"}}}},{{\"id\":\"call_2\",\"type\":\"function\",\"function\":{{\"name\":\"list\",\"arguments\":\"[1, -2, 3.5e2]\"}}}}]}}}}],{}}}",
        usage_json()
    );
    assert_eq!(
        decode_response(&body),
        Ok(LLMResponse {
            content: vec![
                ContentBlock::ToolUse {
                    id: "call_1".to_string(),
                    name: "read_file".to_string(),
                    input: Json::Object(vec![("path".to_string(), Json::Text("a.txt".to_string()))]),
                },
                ContentBlock::ToolUse {
                    id: "call_2".to_string(),
                    name: "list".to_string(),
                    input: Json::Array(vec![
                        Json::Number("1".to_string()),
                        Json::Number("-2".to_string()),
                        Json::Number("350.0".to_string()),
                    ]),
                },
            ],
            usage: Usage { input_tokens: 11, output_tokens: 7 },
        })
    );
}

#[test]
fn text_block_comes_before_tool_calls() {
    let completion = Completion {
        content: "thinking".to_string(),
        tool_calls: vec![OpenAIToolCall {
            id: "a".to_string(),
            name: "f".to_string(),
            arguments: "{}".to_string(),
        }],
        usage: Usage { input_tokens: 1, output_tokens: 2 },
    };
    assert_eq!(
        response_from_completion(completion),
        Ok(LLMResponse {
            content: vec![
                ContentBlock::Text { text: "thinking".to_string() },
                ContentBlock::ToolUse {
                    id: "a".to_string(),
                    name: "f".to_string(),
                    input: Json::Object(vec![]),
                },
            ],
            usage: Usage { input_tokens: 1, output_tokens: 2 },
        })
    );
}

#[test]
fn empty_content_gives_no_text_block() {
    let body = format!(
        "{{\"choices\":[{{\"message\":{{\"role\":\"assistant\"}}}}],{}}}",
        usage_json()
    );
    assert_eq!(
        decode_response(&body),
        Ok(LLMResponse { content: vec![], usage: Usage { input_tokens: 11, output_tokens: 7 } })
    );
}

#[test]
fn malformed_tool_arguments_fail_the_whole_response() {
    let completion = Completion {
        content: "text".to_string(),
        tool_calls: vec![
            OpenAIToolCall { id: "a".to_string(), name: "f".to_string(), arguments: "{}".to_string() },
            OpenAIToolCall { id: "b".to_string(), name: "g".to_string(), arguments: "{oops".to_string() },
            OpenAIToolCall { id: "c".to_string(), name: "h".to_string(), arguments: "".to_string() },
        ],
        usage: Usage { input_tokens: 0, output_tokens: 0 },
    };
    assert_eq!(
        response_from_completion(completion),
        Err(DecodeError::InvalidToolArguments("key must be a string at line 1 column 2".to_string()))
    );
}

#[test]
fn body_that_is_no_json_is_malformed() {
    assert_eq!(
        decode_response("<html>"),
        Err(DecodeError::MalformedBody("expected value at line 1 column 1".to_string()))
    );
    assert_eq!(
        decode_response(""),
        Err(DecodeError::MalformedBody("EOF while parsing a value at line 1 column 0".to_string()))
    );
}

#[test]
fn body_of_another_shape_is_malformed() {
    let fault = Err(DecodeError::MalformedBody("response does not have the expected shape".to_string()));
    let no_usage = "{\"choices\":[{\"message\":{\"role\":\"assistant\",\"content\":\"x\"}}]}".to_string();
    let no_choices = format!("{{\"choices\":[],{}}}", usage_json());
    let null_content = format!(
        "{{\"choices\":[{{\"message\":{{\"role\":\"assistant\",\"content\":null}}}}],{}}}",
        usage_json()
    );
    let no_role = format!("{{\"choices\":[{{\"message\":{{\"content\":\"x\"}}}}],{}}}", usage_json());
    let bad_second = format!(
        "{{\"choices\":[{{\"message\":{{\"role\":\"a\",\"content\":\"x\"}}}},{{}}],{}}}",
        usage_json()
    );
    let bad_call = format!(
        "{{\"choices\":[{{\"message\":{{\"role\":\"a\",\"tool_calls\":[{{\"id\":\"a\",\"type\":\"function\",\"function\":{{\"name\":\"f\"}}}}]}}}}],{}}}",
        usage_json()
    );
    for body in [no_usage, no_choices, null_content, no_role, bad_second, bad_call, "[]".to_string(), "7".to_string()] {
        assert_eq!(decode_response(&body), fault, "for {}", body);
    }
}

#[test]
fn usage_counts_must_fit_in_32_bits() {
    let ok = Json::parse("{\"prompt_tokens\":4294967295,\"completion_tokens\":0,\"total_tokens\":1}").unwrap();
    assert_eq!(decode_usage(&ok), Some(Usage { input_tokens: 4294967295, output_tokens: 0 }));
    for text in [
        "{\"prompt_tokens\":4294967296,\"completion_tokens\":0,\"total_tokens\":1}",
        "{\"prompt_tokens\":1.0,\"completion_tokens\":0,\"total_tokens\":1}",
        "{\"prompt_tokens\":-1,\"completion_tokens\":0,\"total_tokens\":1}",
        "{\"prompt_tokens\":\"1\",\"completion_tokens\":0,\"total_tokens\":1}",
        "{\"prompt_tokens\":1,\"completion_tokens\":0}",
        "{\"prompt_tokens\":1,\"total_tokens\":0}",
        "[1,2,3]",
    ] {
        assert_eq!(decode_usage(&Json::parse(text).unwrap()), None, "for {}", text);
    }
}

#[test]
fn completion_is_read_from_the_first_choice() {
    let body = format!(
        "{{\"choices\":[{{\"message\":{{\"role\":\"a\",\"content\":\"first\"}}}},{{\"message\":{{\"role\":\"a\",\"content\":\"second\"}}}}],{}}}",
        usage_json()
    );
    assert_eq!(
        decode_completion(&Json::parse(&body).unwrap()),
        Some(Completion {
            content: "first".to_string(),
            tool_calls: vec![],
            usage: Usage { input_tokens: 11, output_tokens: 7 },
        })
    );
}

#[test]
fn stream_event_is_read_from_a_document() {
    let doc = Json::parse(
        "{\"choices\":[{\"index\":0,\"delta\":{\"role\":\"assistant\",\"content\":\"hi\",\"tool_calls\":[{\"index\":1,\"id\":\"c\",\"type\":\"function\",\"function\":{\"name\":\"f\",\"arguments\":\"\"}},{\"function\":{\"arguments\":\"{\"}},{\"index\":0}]},\"finish_reason\":\"stop\"}],\"usage\":{\"prompt_tokens\":1,\"completion_tokens\":2,\"total_tokens\":3}}",
    )
    .unwrap();
    assert_eq!(
        decode_stream_event(&doc),
        Some(StreamEvent {
            content: Some("hi".to_string()),
            tool_calls: vec![
                ToolCallDelta {
                    id: Some("c".to_string()),
                    function: Some(FunctionDelta {
                        name: Some("f".to_string()),
                        arguments: Some("".to_string()),
                    }),
                },
                ToolCallDelta {
                    id: None,
                    function: Some(FunctionDelta { name: None, arguments: Some("{".to_string()) }),
                },
                ToolCallDelta { id: None, function: None },
            ],
            finished: true,
            usage: Some(Usage { input_tokens: 1, output_tokens: 2 }),
        })
    );
}

#[test]
fn stream_event_without_choices_carries_only_usage() {
    let doc = Json::parse("{\"choices\":[]}").unwrap();
    assert_eq!(
        decode_stream_event(&doc),
        Some(StreamEvent { content: None, tool_calls: vec![], finished: false, usage: None })
    );
}

#[test]
fn stream_event_of_another_shape_is_none() {
    for text in [
        "{}",
        "{\"choices\":null}",
        "{\"choices\":[{}]}",
        "{\"choices\":[{\"delta\":null}]}",
        "{\"choices\":[{\"delta\":{\"content\":1}}]}",
        "{\"choices\":[{\"delta\":{\"role\":1}}]}",
        "{\"choices\":[{\"delta\":{\"tool_calls\":{}}}]}",
        "{\"choices\":[{\"delta\":{\"tool_calls\":[5]}}]}",
        "{\"choices\":[{\"delta\":{},\"finish_reason\":0}]}",
        "{\"choices\":[{\"delta\":{}}],\"usage\":{}}",
        "{\"choices\":[{\"delta\":{}}],\"usage\":7}",
        "[]",
        "null",
    ] {
        assert_eq!(decode_stream_event(&Json::parse(text).unwrap()), None, "for {}", text);
    }
}

#[test]
fn tool_call_delta_index_must_be_an_unsigned_integer() {
    let ok = Json::parse("{\"index\":18446744073709551615,\"id\":\"a\"}").unwrap();
    assert_eq!(decode_tool_call_delta(&ok), Some(ToolCallDelta { id: Some("a".to_string()), function: None }));
    for text in [
        "{\"index\":-1}",
        "{\"index\":null}",
        "{\"index\":\"0\"}",
        "{\"index\":0.5}",
        "{\"id\":7}",
        "{\"type\":7}",
        "{\"function\":7}",
        "{\"function\":{\"name\":7}}",
        "{\"function\":{\"arguments\":[]}}",
    ] {
        assert_eq!(decode_tool_call_delta(&Json::parse(text).unwrap()), None, "for {}", text);
    }
}
