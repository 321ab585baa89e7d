//! Detecting the possible start of a tool call in a chunk of a stream.

use toolcall::base_json_parser::detect_tool_call_start_basic_json;
use toolcall::config::JsonParserConfig;


#[test]
fn detect_tool_call_start_basic_json_chunk_with_tool_call_start_token_hermes() {
    let text =
        r#"<tool_call>{"name": "search", "parameters": { "query": "rust" } }</tool_call>"#;
    let config = JsonParserConfig {
        tool_call_start_tokens: vec!["<tool_call>".to_string()],
        tool_call_end_tokens: vec!["</tool_call>".to_string()],
        ..Default::default()
    };
    let result = detect_tool_call_start_basic_json(text, &config);
    assert!(result);
}

#[test]
fn detect_tool_call_start_basic_json_chunk_without_tool_call_start_token() {
    let text = r#"{"name": "search", "parameters": { "query": "rust" } }"#;
    let config = JsonParserConfig {
        tool_call_start_tokens: vec!["<tool_call>".to_string()],
        tool_call_end_tokens: vec!["</tool_call>".to_string()],
        ..Default::default()
    };
    let result = detect_tool_call_start_basic_json(text, &config);
    assert!(result);
}

#[test]
fn detect_tool_call_start_basic_json_chunk_without_tool_call_start_token_with_normal_text() {
    let text = r#"Here it is {"name": "#;
    let config = JsonParserConfig {
        tool_call_start_tokens: vec!["<tool_call>".to_string()],
        tool_call_end_tokens: vec!["</tool_call>".to_string()],
        ..Default::default()
    };
    let result = detect_tool_call_start_basic_json(text, &config);
    assert!(result);
}

#[test]
fn detect_tool_call_start_basic_json_chunk_with_square_brackets() {
    // These kind of false positives are expected when calling this function for stream=True
    let text = r#"Here it is [{"name": "search","#;
    let config = JsonParserConfig {
        tool_call_start_tokens: vec!["<tool_call>".to_string()],
        tool_call_end_tokens: vec!["</tool_call>".to_string()],
        ..Default::default()
    };
    let result = detect_tool_call_start_basic_json(text, &config);
    assert!(result);
}

#[test]
fn detect_tool_call_start_basic_json_chunk_false_positive() {
    // These kind of false positives are expected when calling this function for stream=True
    let text = r#"Here it is { Whats up"#;
    let config = JsonParserConfig {
        tool_call_start_tokens: vec!["<tool_call>".to_string()],
        tool_call_end_tokens: vec!["</tool_call>".to_string()],
        ..Default::default()
    };
    let result = detect_tool_call_start_basic_json(text, &config);
    assert!(result);
}

#[test]
fn detect_tool_call_start_basic_json_chunk_with_tool_call_start_token_nemotron_deci() {
    let text =
        r#"<TOOLCALL>[{"name": "search", "parameters": { "query": "rust" } }]</TOOLCALL>"#;
    let config = JsonParserConfig {
        tool_call_start_tokens: vec!["<TOOLCALL>".to_string()],
        tool_call_end_tokens: vec!["</TOOLCALL>".to_string()],
        ..Default::default()
    };
    let result = detect_tool_call_start_basic_json(text, &config);
    assert!(result);
}

#[test]
fn detect_tool_call_start_basic_json_chunk_with_lllama3_json_token() {
    let text = r#"<|python_tag|>{ "name": }"#;
    let config = JsonParserConfig {
        tool_call_start_tokens: vec!["<|python_tag|>".to_string()],
        tool_call_end_tokens: vec!["".to_string()],
        ..Default::default()
    };
    let result = detect_tool_call_start_basic_json(text, &config);
    assert!(result);
}

#[test]
fn detect_tool_call_start_basic_json_chunk_mistral_token() {
    let text = r#"Hello Yo ! [TOOL_CALLS]{"name": "search", "#;
    let config = JsonParserConfig {
        tool_call_start_tokens: vec!["[TOOL_CALLS]".to_string()],
        tool_call_end_tokens: vec!["".to_string()],
        ..Default::default()
    };
    let result = detect_tool_call_start_basic_json(text, &config);
    assert!(result);
}

#[test]
fn detect_tool_call_start_basic_json_chunk_phi4_token() {
    let text = r#"functools{"name": "search", "#;
    let config = JsonParserConfig {
        tool_call_start_tokens: vec!["functools".to_string()],
        tool_call_end_tokens: vec!["".to_string()],
        ..Default::default()
    };
    let result = detect_tool_call_start_basic_json(text, &config);
    assert!(result);
}

#[test]
fn detect_tool_call_start_basic_json_chunk_phi4_partial_token_fun() {
    // Test the streaming scenario where "fun" arrives first
    let text = r#"fun"#;
    let config = JsonParserConfig {
        tool_call_start_tokens: vec!["functools".to_string()],
        tool_call_end_tokens: vec!["".to_string()],
        ..Default::default()
    };
    let result = detect_tool_call_start_basic_json(text, &config);
    assert!(
        result,
        "Should detect 'fun' as potential start of 'functools'"
    );
}

#[test]
fn detect_tool_call_start_basic_json_chunk_phi4_partial_token_func() {
    let text = r#"func"#;
    let config = JsonParserConfig {
        tool_call_start_tokens: vec!["functools".to_string()],
        tool_call_end_tokens: vec!["".to_string()],
        ..Default::default()
    };
    let result = detect_tool_call_start_basic_json(text, &config);
    assert!(
        result,
        "Should detect 'func' as potential start of 'functools'"
    );
}

#[test]
fn detect_tool_call_start_basic_json_chunk_phi4_partial_token_f() {
    let text = r#"f"#;
    let config = JsonParserConfig {
        tool_call_start_tokens: vec!["functools".to_string()],
        tool_call_end_tokens: vec!["".to_string()],
        ..Default::default()
    };
    let result = detect_tool_call_start_basic_json(text, &config);
    assert!(
        result,
        "Should detect 'f' as potential start of 'functools'"
    );
}

#[test]
fn detect_tool_call_start_basic_json_chunk_phi4_partial_with_prefix() {
    // Test case where text ends with a partial token (more realistic streaming scenario)
    let text = r#"Hello fun"#;
    let config = JsonParserConfig {
        tool_call_start_tokens: vec!["functools".to_string()],
        tool_call_end_tokens: vec!["".to_string()],
        ..Default::default()
    };
    let result = detect_tool_call_start_basic_json(text, &config);
    assert!(
        result,
        "Should detect text ending with 'fun' as potential tool call start"
    );
}

#[test]
fn detect_tool_call_start_basic_json_chunk_phi4_avoid_false_positive() {
    // Test to ensure we don't get false positives for unrelated text
    let text = r#"funny joke"#;
    let config = JsonParserConfig {
        tool_call_start_tokens: vec!["functools".to_string()],
        tool_call_end_tokens: vec!["".to_string()],
        ..Default::default()
    };
    let result = detect_tool_call_start_basic_json(text, &config);
    // This should still return true because "fun" is a prefix, but that's expected behavior
    // The key is that we detect potential starts, and false positives are acceptable
    // in streaming scenarios to avoid missing real tool calls
    assert!(result);
}

#[test]
fn detect_tool_call_start_basic_json_chunk_phi4_no_match() {
    let text = r#"hello world"#;
    let config = JsonParserConfig {
        tool_call_start_tokens: vec!["functools".to_string()],
        tool_call_end_tokens: vec!["".to_string()],
        ..Default::default()
    };
    let result = detect_tool_call_start_basic_json(text, &config);
    assert!(
        !result,
        "Should not detect unrelated text as tool call start"
    );
}

fn config_with(start: &str) -> JsonParserConfig {
    JsonParserConfig {
        tool_call_start_tokens: vec![start.to_string()],
        tool_call_end_tokens: vec!["</x>".to_string()],
        ..Default::default()
    }
}

#[test]
fn blank_chunk_is_no_start() {
    assert!(!detect_tool_call_start_basic_json("", &config_with("<tool_call>")));
    assert!(!detect_tool_call_start_basic_json(" \n\t ", &config_with("<tool_call>")));
}

#[test]
fn short_prefix_counts_only_at_the_end() {
    let config = config_with("<tool_call>");
    assert!(detect_tool_call_start_basic_json("answer <", &config));
    assert!(detect_tool_call_start_basic_json("answer <t", &config));
    assert!(!detect_tool_call_start_basic_json("1 < 2", &config));
}

#[test]
fn prefix_of_three_bytes_counts_anywhere() {
    let config = config_with("<tool_call>");
    assert!(detect_tool_call_start_basic_json("see <to and more", &config));
    let wide = config_with("<｜tool▁calls▁begin｜>");
    assert!(detect_tool_call_start_basic_json("see <｜ and more", &wide));
    assert!(!detect_tool_call_start_basic_json("see < and more", &wide));
}

#[test]
fn empty_start_token_is_never_seen() {
    assert!(!detect_tool_call_start_basic_json("hello world", &config_with("")));
}

#[test]
fn every_part_of_a_start_token_at_the_end_is_detected() {
    for token in ["<tool_call>", "[TOOL_CALLS]", "functools", "<｜tool▁calls▁begin｜>"] {
        let config = config_with(token);
        let chars: Vec<char> = token.chars().collect();
        for n in 1..=chars.len() {
            let part: String = chars[..n].iter().collect();
            let chunk = format!("some text {}", part);
            assert!(detect_tool_call_start_basic_json(&chunk, &config), "{}", chunk);
        }
    }
}
