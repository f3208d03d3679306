use llm_client::json::Json;
use llm_client::stream::{
    build_tool_block, decode_stream, CallbackSink, CollectingSink, StreamAccumulator, StreamError,
};
use llm_client::stream_model::{DecodeError, PartialToolCall};
use std::cell::RefCell;
use llm_client::types::{ContentBlock, LLMResponse, Usage};

fn chunks(parts: &[&str]) -> Vec<Vec<u8>> {
    parts.iter().map(|p| p.as_bytes().to_vec()).collect()
}

fn text_event(text: &str) -> String {
    format!(
        "data: {{\"choices\":[{{\"delta\":{{\"content\":\"{}\"}},\"finish_reason\":null}}]}}\n",
        text
    )
}

fn path_object() -> Json {
    Json::Object(vec![("path".to_string(), Json::Text("a.txt".to_string()))])
}

fn empty_response() -> LLMResponse {
    LLMResponse { content: vec![], usage: Usage { input_tokens: 0, output_tokens: 0 } }
}

#[test]
fn empty_stream_yields_empty_response() {
    let mut sink = CollectingSink::new();
    let out = decode_stream(&vec![], &mut sink);
    assert_eq!(out, Ok(empty_response()));
    assert!(sink.tokens.is_empty());
}

#[test]
fn stream_without_data_lines_yields_empty_response() {
    let mut sink = CollectingSink::new();
    let out = decode_stream(&chunks(&[": heartbeat\n\n", "event: ping\n", "retry: 5"]), &mut sink);
    assert_eq!(out, Ok(empty_response()));
    assert!(sink.tokens.is_empty());
}

#[test]
fn done_as_only_data_line_yields_empty_response() {
    let mut sink = CollectingSink::new();
    let out = decode_stream(&chunks(&["data: [DONE]\n"]), &mut sink);
    assert_eq!(out, Ok(empty_response()));
    let mut sink = CollectingSink::new();
    let out = decode_stream(&chunks(&["data: [DONE]"]), &mut sink);
    assert_eq!(out, Ok(empty_response()));
}

#[test]
fn text_deltas_are_concatenated_and_emitted_in_order() {
    let stream = format!("{}{}{}data: [DONE]\n", text_event("Hel"), text_event("lo, "), text_event("world"));
    let mut sink = CollectingSink::new();
    let out = decode_stream(&chunks(&[&stream]), &mut sink).unwrap();
    assert_eq!(out.content, vec![ContentBlock::Text { text: "Hello, world".to_string() }]);
    assert_eq!(sink.tokens, vec!["Hel".to_string(), "lo, ".to_string(), "world".to_string()]);
    assert_eq!(out.usage, Usage { input_tokens: 0, output_tokens: 0 });
}

#[test]
fn chunk_boundaries_do_not_matter() {
    let stream = format!("{}{}", text_event("ab"), text_event("cd"));
    let whole = {
        let mut sink = CollectingSink::new();
        decode_stream(&chunks(&[&stream]), &mut sink).unwrap()
    };
    for cut in 0..=stream.len() {
        let (left, right) = stream.split_at(cut);
        let mut sink = CollectingSink::new();
        let out = decode_stream(&chunks(&[left, right]), &mut sink).unwrap();
        assert_eq!(out, whole);
        assert_eq!(sink.tokens, vec!["ab".to_string(), "cd".to_string()]);
    }
}

#[test]
fn unterminated_last_line_is_decoded() {
    let stream = text_event("tail");
    let stream = stream.trim_end_matches('\n');
    let mut sink = CollectingSink::new();
    let out = decode_stream(&chunks(&[stream]), &mut sink).unwrap();
    assert_eq!(out.content, vec![ContentBlock::Text { text: "tail".to_string() }]);
    assert_eq!(sink.tokens, vec!["tail".to_string()]);
}

#[test]
fn empty_text_delta_is_emitted_but_gives_no_text_block() {
    let mut sink = CollectingSink::new();
    let out = decode_stream(&chunks(&[&text_event("")]), &mut sink).unwrap();
    assert_eq!(out.content, vec![]);
    assert_eq!(sink.tokens, vec!["".to_string()]);
}

#[test]
fn tool_call_is_rebuilt_from_its_fragments() {
    let stream = [
        "data: {\"choices\":[{\"delta\":{\"tool_calls\":[{\"index\":0,\"id\":\"call_1\",\"type\":\"function\",\"function\":{\"name\":\"read_file\",\"arguments\":\"\"}}]},\"finish_reason\":null}]}\n",
        "data: {\"choices\":[{\"delta\":{\"tool_calls\":[{\"index\":0,\"function\":{\"arguments\":\"{\\\"path\\\":\"}}]},\"finish_reason\":null}]}\n",
        "data: {\"choices\":[{\"delta\":{\"tool_calls\":[{\"index\":0,\"function\":{\"arguments\":\"\\\"a.txt\\\"}\"}}]},\"finish_reason\":null}]}\n",
        "data: {\"choices\":[{\"delta\":{},\"finish_reason\":\"tool_calls\"}]}\n",
        "data: [DONE]\n",
    ]
    .concat();
    let mut sink = CollectingSink::new();
    let out = decode_stream(&chunks(&[&stream]), &mut sink).unwrap();
    assert_eq!(
        out.content,
        vec![ContentBlock::ToolUse {
            id: "call_1".to_string(),
            name: "read_file".to_string(),
            input: path_object(),
        }]
    );
    assert!(sink.tokens.is_empty());
}

#[test]
fn text_comes_before_tool_calls_and_tool_calls_keep_their_order() {
    let stream = [
        "data: {\"choices\":[{\"delta\":{\"tool_calls\":[{\"id\":\"a\",\"function\":{\"name\":\"first\",\"arguments\":\"1\"}}]}}]}\n",
        "data: {\"choices\":[{\"delta\":{\"content\":\"note\"}}]}\n",
        "data: {\"choices\":[{\"delta\":{\"tool_calls\":[{\"id\":\"b\",\"function\":{\"name\":\"second\",\"arguments\":\"[\"}}]}}]}\n",
        "data: {\"choices\":[{\"delta\":{\"tool_calls\":[{\"function\":{\"arguments\":\"true]\"}}]}}]}\n",
    ]
    .concat();
    let mut sink = CollectingSink::new();
    let out = decode_stream(&chunks(&[&stream]), &mut sink).unwrap();
    assert_eq!(
        out.content,
        vec![
            ContentBlock::Text { text: "note".to_string() },
            ContentBlock::ToolUse {
                id: "a".to_string(),
                name: "first".to_string(),
                input: Json::Number("1".to_string()),
            },
            ContentBlock::ToolUse {
                id: "b".to_string(),
                name: "second".to_string(),
                input: Json::Array(vec![Json::Bool(true)]),
            },
        ]
    );
}

#[test]
fn open_tool_call_is_closed_at_the_end_of_the_stream() {
    let stream = "data: {\"choices\":[{\"delta\":{\"tool_calls\":[{\"id\":\"c\",\"function\":{\"name\":\"f\",\"arguments\":\"null\"}}]}}]}\n";
    let mut sink = CollectingSink::new();
    let out = decode_stream(&chunks(&[stream]), &mut sink).unwrap();
    assert_eq!(
        out.content,
        vec![ContentBlock::ToolUse { id: "c".to_string(), name: "f".to_string(), input: Json::Null }]
    );
}

#[test]
fn continuation_without_open_call_is_ignored() {
    let stream = [
        "data: {\"choices\":[{\"delta\":{\"tool_calls\":[{\"function\":{\"arguments\":\"{}\"}}]}}]}\n",
        "data: {\"choices\":[{\"delta\":{\"content\":\"ok\"}}]}\n",
    ]
    .concat();
    let mut sink = CollectingSink::new();
    let out = decode_stream(&chunks(&[&stream]), &mut sink).unwrap();
    assert_eq!(out.content, vec![ContentBlock::Text { text: "ok".to_string() }]);
}

#[test]
fn continuation_after_finish_marker_is_ignored() {
    let stream = [
        "data: {\"choices\":[{\"delta\":{\"tool_calls\":[{\"id\":\"a\",\"function\":{\"name\":\"f\",\"arguments\":\"{}\"}}]},\"finish_reason\":\"stop\"}]}\n",
        "data: {\"choices\":[{\"delta\":{\"tool_calls\":[{\"function\":{\"arguments\":\"junk\"}}]}}]}\n",
    ]
    .concat();
    let mut sink = CollectingSink::new();
    let out = decode_stream(&chunks(&[&stream]), &mut sink).unwrap();
    assert_eq!(
        out.content,
        vec![ContentBlock::ToolUse {
            id: "a".to_string(),
            name: "f".to_string(),
            input: Json::Object(vec![]),
        }]
    );
}

#[test]
fn invalid_tool_arguments_are_a_decode_error() {
    let stream = "data: {\"choices\":[{\"delta\":{\"tool_calls\":[{\"id\":\"a\",\"function\":{\"name\":\"f\",\"arguments\":\"{\\\"path\\\":\"}}]},\"finish_reason\":\"stop\"}]}\n";
    let mut sink = CollectingSink::new();
    match decode_stream(&chunks(&[stream]), &mut sink) {
        Err(StreamError::Decode(DecodeError::InvalidToolArguments(why))) => {
            assert_eq!(why, "EOF while parsing a value at line 1 column 8");
        }
        other => panic!("unexpected outcome: {:?}", other),
    }
}

#[test]
fn tool_call_without_name_is_a_decode_error() {
    let stream = "data: {\"choices\":[{\"delta\":{\"tool_calls\":[{\"id\":\"a\",\"function\":{\"arguments\":\"{}\"}}]},\"finish_reason\":\"stop\"}]}\n";
    let mut sink = CollectingSink::new();
    assert_eq!(
        decode_stream(&chunks(&[stream]), &mut sink),
        Err(StreamError::Decode(DecodeError::MissingToolName))
    );
}

#[test]
fn tool_call_without_id_is_a_decode_error() {
    let tool = PartialToolCall { id: None, name: Some("f".to_string()), arguments: "{}".to_string() };
    assert_eq!(build_tool_block(tool), Err(DecodeError::MissingToolId));
}

#[test]
fn build_tool_block_parses_the_arguments() {
    let tool = PartialToolCall {
        id: Some("call_1".to_string()),
        name: Some("read_file".to_string()),
        arguments: "{\"path\": \"a.txt\"}".to_string(),
    };
    assert_eq!(
        build_tool_block(tool),
        Ok(ContentBlock::ToolUse {
            id: "call_1".to_string(),
            name: "read_file".to_string(),
            input: path_object(),
        })
    );
}

#[test]
fn last_usage_report_wins() {
    let stream = [
        "data: {\"choices\":[],\"usage\":{\"prompt_tokens\":1,\"completion_tokens\":2,\"total_tokens\":3}}\n",
        "data: {\"choices\":[{\"delta\":{\"content\":\"x\"}}],\"usage\":null}\n",
        "data: {\"choices\":[],\"usage\":{\"prompt_tokens\":10,\"completion_tokens\":20,\"total_tokens\":30}}\n",
    ]
    .concat();
    let mut sink = CollectingSink::new();
    let out = decode_stream(&chunks(&[&stream]), &mut sink).unwrap();
    assert_eq!(out.usage, Usage { input_tokens: 10, output_tokens: 20 });
}

#[test]
fn lines_of_another_shape_are_skipped() {
    let stream = [
        "data: not json\n",
        "data: {\"choices\":\"none\"}\n",
        "data: {\"choices\":[{\"delta\":{\"content\":7}}]}\n",
        "data: {\"choices\":[{\"delta\":{\"content\":\"a\"}},{\"delta\":5}]}\n",
        "data: {\"choices\":[{\"delta\":{\"content\":\"kept\"}}],\"usage\":{\"prompt_tokens\":-1,\"completion_tokens\":1,\"total_tokens\":0}}\n",
        "data:{\"choices\":[{\"delta\":{\"content\":\"no space\"}}]}\n",
        "data: {\"choices\":[{\"delta\":{\"content\":\"b\"}}]}\n",
    ]
    .concat();
    let mut sink = CollectingSink::new();
    let out = decode_stream(&chunks(&[&stream]), &mut sink).unwrap();
    assert_eq!(out.content, vec![ContentBlock::Text { text: "b".to_string() }]);
    assert_eq!(out.usage, Usage { input_tokens: 0, output_tokens: 0 });
    assert_eq!(sink.tokens, vec!["b".to_string()]);
}

#[test]
fn invalid_utf8_is_a_decode_error() {
    let mut sink = CollectingSink::new();
    let out = decode_stream(&vec![vec![0x64, 0xff, 0x0a]], &mut sink);
    assert_eq!(out, Err(StreamError::Decode(DecodeError::InvalidUtf8)));
}

#[test]
fn character_split_between_chunks_is_a_decode_error() {
    let bytes = "data: é\n".as_bytes();
    let cut = bytes.len() - 2;
    let mut sink = CollectingSink::new();
    let out = decode_stream(&vec![bytes[..cut].to_vec(), bytes[cut..].to_vec()], &mut sink);
    assert_eq!(out, Err(StreamError::Decode(DecodeError::InvalidUtf8)));
}

#[test]
fn non_ascii_text_passes_through() {
    let mut sink = CollectingSink::new();
    let out = decode_stream(&chunks(&[&text_event("héllo ✓")]), &mut sink).unwrap();
    assert_eq!(out.content, vec![ContentBlock::Text { text: "héllo ✓".to_string() }]);
}

#[test]
fn refusal_of_a_fragment_aborts_decoding() {
    let stream = format!("{}{}{}", text_event("one"), text_event("two"), text_event("three"));
    let calls: RefCell<Vec<String>> = RefCell::new(vec![]);
    let mut sink = CallbackSink::new(|text: &str| -> Result<(), String> {
        calls.borrow_mut().push(text.to_string());
        if text == "two" {
            Err(format!("refused {}", text))
        } else {
            Ok(())
        }
    });
    let out = decode_stream(&chunks(&[&stream]), &mut sink);
    assert_eq!(out, Err(StreamError::Callback("refused two".to_string())));
    assert_eq!(calls.into_inner(), vec!["one".to_string(), "two".to_string()]);
}

#[test]
fn callback_is_called_once_for_each_fragment_in_order() {
    let stream = format!("{}\n: note\n{}{}", text_event("a"), text_event("b"), text_event("a"));
    let calls: RefCell<Vec<String>> = RefCell::new(vec![]);
    let mut sink = CallbackSink::new(|text: &str| -> Result<(), ()> {
        calls.borrow_mut().push(text.to_string());
        Ok(())
    });
    let out = decode_stream(&chunks(&[&stream]), &mut sink).unwrap();
    assert_eq!(out.content, vec![ContentBlock::Text { text: "aba".to_string() }]);
    assert_eq!(calls.into_inner(), vec!["a".to_string(), "b".to_string(), "a".to_string()]);
}

#[test]
fn fragment_is_emitted_before_a_decode_error_of_the_same_event() {
    let stream = "data: {\"choices\":[{\"delta\":{\"content\":\"seen\",\"tool_calls\":[{\"id\":\"a\",\"function\":{\"arguments\":\"{}\"}}]},\"finish_reason\":\"stop\"}]}\n";
    let mut sink = CollectingSink::new();
    let out = decode_stream(&chunks(&[stream]), &mut sink);
    assert_eq!(out, Err(StreamError::Decode(DecodeError::MissingToolName)));
    assert_eq!(sink.tokens, vec!["seen".to_string()]);
}

#[test]
fn reparsing_the_same_stream_gives_the_same_response() {
    let stream = format!(
        "{}data: {{\"choices\":[{{\"delta\":{{\"tool_calls\":[{{\"id\":\"a\",\"function\":{{\"name\":\"f\",\"arguments\":\"{{\\\"k\\\":[1,2.5,null]}}\"}}}}]}},\"finish_reason\":\"stop\"}}]}}\n",
        text_event("same")
    );
    let input = chunks(&[&stream]);
    let mut first_sink = CollectingSink::new();
    let first = decode_stream(&input, &mut first_sink);
    let mut second_sink = CollectingSink::new();
    let second = decode_stream(&input, &mut second_sink);
    assert!(first.is_ok());
    assert_eq!(first, second);
    assert_eq!(first_sink, second_sink);
}

#[test]
fn accumulator_steps_match_whole_stream_decoding() {
    let mut acc = StreamAccumulator::new();
    let mut sink = CollectingSink::new();
    assert_eq!(acc.process_chunk(b"data: {\"choices\":[{\"delta\":{\"con", &mut sink), Ok(()));
    assert_eq!(acc.line_buffer, "data: {\"choices\":[{\"delta\":{\"con");
    assert!(sink.tokens.is_empty());
    assert_eq!(acc.process_chunk(b"tent\":\"hi\"}}]}\n\n", &mut sink), Ok(()));
    assert_eq!(acc.line_buffer, "");
    assert_eq!(acc.text, "hi");
    assert_eq!(sink.tokens, vec!["hi".to_string()]);
    assert_eq!(acc.process_sse_line("data: [DONE]", &mut sink), Ok(()));
    let out = acc.finish(&mut sink).unwrap();
    assert_eq!(out.content, vec![ContentBlock::Text { text: "hi".to_string() }]);
}

#[test]
fn fragments_of_a_second_call_without_id_are_a_decode_error() {
    let stream = [
        "data: {\"choices\":[{\"delta\":{\"tool_calls\":[{\"id\":\"a\",\"function\":{\"name\":\"f\",\"arguments\":\"{}\"}}]}}]}\n",
        "data: {\"choices\":[{\"delta\":{\"tool_calls\":[{\"function\":{\"name\":\"g\",\"arguments\":\"{\\\"x\\\":1}\"}}]}}]}\n",
        "data: {\"choices\":[{\"delta\":{},\"finish_reason\":\"tool_calls\"}]}\n",
    ]
    .concat();
    let mut sink = CollectingSink::new();
    assert_eq!(
        decode_stream(&chunks(&[&stream]), &mut sink),
        Err(StreamError::Decode(DecodeError::InvalidToolArguments(
            "trailing characters at line 1 column 3".to_string()
        )))
    );
}

#[test]
fn several_updates_in_one_event_are_merged_in_order() {
    let stream = "data: {\"choices\":[{\"delta\":{\"tool_calls\":[{\"id\":\"a\",\"function\":{\"name\":\"f\"}},{\"function\":{\"arguments\":\"[1,\"}},{\"function\":{}},{\"function\":{\"arguments\":\"2]\"}},{\"id\":\"b\",\"function\":{\"name\":\"g\",\"arguments\":\"0\"}}]}}]}\n";
    let mut sink = CollectingSink::new();
    let out = decode_stream(&chunks(&[stream]), &mut sink).unwrap();
    assert_eq!(
        out.content,
        vec![
            ContentBlock::ToolUse {
                id: "a".to_string(),
                name: "f".to_string(),
                input: Json::Array(vec![Json::Number("1".to_string()), Json::Number("2".to_string())]),
            },
            ContentBlock::ToolUse {
                id: "b".to_string(),
                name: "g".to_string(),
                input: Json::Number("0".to_string()),
            },
        ]
    );
}

#[test]
fn carriage_return_before_the_newline_is_part_of_the_line() {
    let stream = "data: {\"choices\":[{\"delta\":{\"content\":\"x\"}}]}\r\ndata: [DONE]\r\n";
    let mut sink = CollectingSink::new();
    let out = decode_stream(&chunks(&[stream]), &mut sink).unwrap();
    assert_eq!(out.content, vec![ContentBlock::Text { text: "x".to_string() }]);
}
