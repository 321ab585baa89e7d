//! Feeding captured output to the parsers.

use toolcall::capture::{
    capture_output_from_response, check_token_chunks, decode_arguments, definitions_of, get_text,
    last_member, make_stream_chunk, parse_reasoning_stream, parse_tools_json, parser_choice,
    read_value_text, sort_arguments, tokens_of_chunk, CaptureChunk, CapturedArguments,
    ChatCompletionResponseMessage, FunctionCall, ParserResult,
};
use toolcall::protocol::{ChatCompletionMessageContent, FinishReason, Role};

#[test]
fn tools_are_read_flat_or_wrapped() {
    let tools = parse_tools_json(Some(
        r#"[{"name": "f", "parameters": {"b": 1, "a": 2}},
            {"type": "function", "function": {"name": "g"}},
            {"name": "h", "parameters": null, "strict": true}]"#,
    ))
    .unwrap()
    .unwrap();
    assert_eq!(tools.len(), 3);
    assert_eq!(tools[0].name, "f");
    assert_eq!(tools[0].parameters.as_deref(), Some(r#"{"b": 1, "a": 2}"#));
    assert_eq!((tools[1].name.as_str(), tools[1].parameters.as_deref()), ("g", None));
    assert_eq!((tools[2].parameters.as_deref(), tools[2].strict), (Some("null"), None));
}

#[test]
fn tools_may_be_missing_or_empty() {
    assert_eq!(parse_tools_json(None), Ok(None));
    assert_eq!(parse_tools_json(Some(" [ ] ")), Ok(Some(vec![])));
}

#[test]
fn last_of_repeated_members_counts() {
    let tools = parse_tools_json(Some(r#"[{"name": "f", "name": "g"}]"#)).unwrap().unwrap();
    assert_eq!(tools[0].name, "g");
    let members = vec![
        ("a".to_string(), "1".to_string()),
        ("a".to_string(), "2".to_string()),
        ("b".to_string(), "3".to_string()),
    ];
    assert_eq!(last_member(&members, "a").as_deref(), Some("2"));
    assert_eq!(last_member(&members, "c"), None);
}

#[test]
fn held_values_are_read() {
    let held = |s: &str| {
        let quoted = serde_json::to_string(s).unwrap();
        format!("{{\"$serde_json::private::RawValue\": {}}}", quoted)
    };
    let tool = held(r#"{"name": "f", "parameters": {"a": 1}}"#);
    let list = format!("[{}]", tool);
    let value: serde_json::Value = serde_json::from_str(&list).unwrap();
    assert_eq!(value[0].get("name").unwrap(), "f");
    for text in [list.clone(), held(&list), held(&held(&list))] {
        let tools = parse_tools_json(Some(&text)).unwrap().unwrap();
        assert_eq!(tools.len(), 1);
        assert_eq!(tools[0].name, "f");
        assert_eq!(tools[0].parameters.as_deref(), Some(r#"{"a": 1}"#));
    }
    let wrapped = format!("[{{\"function\": {}}}, {{\"name\": {}}}]", tool, held("\"g\""));
    let tools = parse_tools_json(Some(&wrapped)).unwrap().unwrap();
    assert_eq!((tools[0].name.as_str(), tools[1].name.as_str()), ("f", "g"));
    assert_eq!(read_value_text(&held("7")), "7");
    assert_eq!(read_value_text(r#"{"a": 1}"#), r#"{"a": 1}"#);
    let later = r#"[{"name": "f", "$serde_json::private::RawValue": "7"}]"#;
    assert_eq!(parse_tools_json(Some(later)).unwrap().unwrap()[0].name, "f");
}

#[test]
fn malformed_tools_are_refused() {
    let message = |s: &str| parse_tools_json(Some(s)).unwrap_err().message;
    let reason = serde_json::from_str::<serde_json::Value>("[1,").unwrap_err();
    assert_eq!(message("[1,"), format!("invalid tools_json: {}", reason));
    assert_eq!(message("[1e999]"), {
        let reason = serde_json::from_str::<serde_json::Value>("[1e999]").unwrap_err();
        format!("invalid tools_json: {}", reason)
    });
    assert_eq!(message(r#"{"name": "f"}"#), "tools_json must be a JSON array");
    let unnamed = "tools_json[1] requires a string `name` field (or `function.name`)";
    assert_eq!(message(r#"[{"name": "f"}, {"name": 1}]"#), unnamed);
    assert_eq!(message(r#"[{"name": "f"}, {"name": "g", "function": {}}]"#), unnamed);
    assert_eq!(message(r#"[{"name": "f"}, 7]"#), unnamed);
    let items = vec![r#"{"name":"f"}"#.to_string(), "{}".to_string()];
    assert_eq!(definitions_of(&items).unwrap_err().message, unnamed);
}

#[test]
fn captured_piece_becomes_a_chunk() {
    let chunk = make_stream_chunk(&CaptureChunk {
        delta_text: "hi".to_string(),
        finish_reason: Some(FinishReason::Stop),
    });
    assert_eq!(chunk.id.as_deref(), Some("parser-stream-capture"));
    assert!(chunk.event.is_none() && chunk.comment.is_none() && chunk.error.is_none());
    let data = chunk.data.unwrap();
    assert_eq!(data.inner.id, "parser-stream-capture");
    assert_eq!(data.inner.model, "parser-stream-capture");
    assert_eq!(data.inner.object, "chat.completion.chunk");
    assert_eq!(data.inner.created, 1234567890);
    assert!(data.inner.usage.is_none() && data.nvext.is_none());
    let choice = &data.inner.choices[0];
    assert_eq!((choice.index, choice.finish_reason), (0, Some(FinishReason::Stop)));
    assert_eq!(choice.delta.role, Some(Role::Assistant));
    assert_eq!(choice.delta.content.as_ref().map(get_text), Some("hi"));
}

#[test]
fn arguments_are_decoded() {
    assert_eq!(decode_arguments(""), CapturedArguments::Json("{}".to_string()));
    assert_eq!(decode_arguments("{\"a\":1}"), CapturedArguments::Json("{\"a\":1}".to_string()));
    assert_eq!(decode_arguments("{\"a\":"), CapturedArguments::Text("{\"a\":".to_string()));
    assert_eq!(sort_arguments("x", true), CapturedArguments::Json("x".to_string()));
    assert_eq!(sort_arguments("", false), CapturedArguments::Json("{}".to_string()));
}

#[test]
fn output_gathers_texts_and_calls() {
    let function =
        |n: &str, a: &str| FunctionCall { name: n.to_string(), arguments: a.to_string() };
    let messages = vec![
        ChatCompletionResponseMessage {
            content: Some(ChatCompletionMessageContent::Text("a ".to_string())),
            tool_calls: Some(vec![function("f", "{}"), function("g", "no")]),
        },
        ChatCompletionResponseMessage {
            content: Some(ChatCompletionMessageContent::Parts),
            tool_calls: None,
        },
        ChatCompletionResponseMessage {
            content: Some(ChatCompletionMessageContent::Text("b".to_string())),
            tool_calls: Some(vec![function("h", "[1]")]),
        },
        ChatCompletionResponseMessage { content: None, tool_calls: None },
    ];
    let out = capture_output_from_response(&messages);
    assert_eq!(out.normal_text, "a b");
    let names: Vec<&str> = out.calls.iter().map(|c| c.name.as_str()).collect();
    assert_eq!(names, vec!["f", "g", "h"]);
    assert_eq!(out.calls[1].arguments, CapturedArguments::Text("no".to_string()));
    assert_eq!(out.calls[2].arguments, CapturedArguments::Json("[1]".to_string()));
}

#[test]
fn parser_names() {
    assert_eq!(parser_choice(String::new()), None);
    assert_eq!(parser_choice("hermes".to_string()), Some("hermes".to_string()));
}

#[test]
fn token_chunks_have_to_match() {
    let chunks = vec!["a".to_string(), "b".to_string()];
    assert!(check_token_chunks(&chunks, &None).is_ok());
    assert!(check_token_chunks(&chunks, &Some(vec![vec![1], vec![]])).is_ok());
    assert_eq!(
        check_token_chunks(&chunks, &Some(vec![vec![1]])).unwrap_err().message,
        "token_chunks length (1) must match chunks length (2)"
    );
}

#[test]
fn tokens_go_with_their_chunk() {
    let token_chunks = Some(vec![vec![1, 2], vec![], vec![3]]);
    assert_eq!(tokens_of_chunk(&token_chunks, 0), &[1, 2]);
    assert_eq!(tokens_of_chunk(&token_chunks, 1), &[] as &[u32]);
    assert_eq!(tokens_of_chunk(&token_chunks, 2), &[3]);
    assert_eq!(tokens_of_chunk(&None, 7), &[] as &[u32]);
}

#[test]
fn reasoning_runs_together() {
    let part = |n: &str, r: &str| ParserResult {
        normal_text: n.to_string(),
        reasoning_text: r.to_string(),
    };
    let all = parse_reasoning_stream(&vec![part("", "think"), part("say", "ing")], &part("<", ""));
    assert_eq!(all, part("say<", "thinking"));
    assert_eq!(parse_reasoning_stream(&vec![], &part("", "")), part("", ""));
}
