//! The configuration of the families.

use toolcall::config::{
    Glm47ParserConfig, JsonParserConfig, JsonParserType, KimiK2ParserConfig, ParserConfig,
    ToolCallConfig, XmlParserConfig,
};
use toolcall::structural_tag::{JsonSchemaStyle, StructuralTagBuilder, TOOL_NAME_PLACEHOLDER};

#[test]
fn deepseek_dsml_factory_produces_expected_block_tokens() {
    let v3_2 = ToolCallConfig::deepseek_v3_2();
    let v4 = ToolCallConfig::deepseek_v4();
    let v3_2_cfg = match v3_2.parser_config {
        ParserConfig::Dsml(c) => c,
        _ => panic!("expected Dsml variant for v3_2"),
    };
    let v4_cfg = match v4.parser_config {
        ParserConfig::Dsml(c) => c,
        _ => panic!("expected Dsml variant for v4"),
    };
    assert_eq!(v3_2_cfg.block_start, "<｜DSML｜function_calls>");
    assert_eq!(v3_2_cfg.block_end, "</｜DSML｜function_calls>");
    assert_eq!(v4_cfg.block_start, "<｜DSML｜tool_calls>");
    assert_eq!(v4_cfg.block_end, "</｜DSML｜tool_calls>");
}

#[test]
fn dsml_tags_open_and_close_the_block() {
    let family = ToolCallConfig::deepseek_v4();
    let starts = family.parser_config.tool_call_start_tokens();
    assert_eq!(starts, vec!["<｜DSML｜tool_calls>", "<｜DSML｜invoke name="]);
    assert_eq!(family.parser_config.tool_call_end_tokens(), vec!["</｜DSML｜tool_calls>"]);
    let tags = match family.structural_tag_builder {
        Some(StructuralTagBuilder::DsmlToolCalls(tags)) => tags,
        _ => panic!("expected DSML tags"),
    };
    assert_eq!(tags.trigger, starts[0]);
    assert_eq!(tags.block_begin, "<｜DSML｜tool_calls>\n");
    assert_eq!(tags.block_end, "</｜DSML｜tool_calls>");
    assert_eq!(
        tags.invoke_begin_template,
        format!("<｜DSML｜invoke name=\"{}\">\n", TOOL_NAME_PLACEHOLDER)
    );
    assert_eq!(tags.invoke_end, "</｜DSML｜invoke>\n");
    assert_eq!(tags.separator, "");
    assert_eq!(tags.tool_call_ban_tokens, vec!["｜DSML｜"]);
    assert_eq!(tags.reasoning_end.as_deref(), Some("</think>"));
}

#[test]
fn default_is_json() {
    let config = match ToolCallConfig::default().parser_config {
        ParserConfig::Json(c) => c,
        _ => panic!("expected JSON"),
    };
    assert_eq!(config.tool_call_start_tokens, vec!["<TOOLCALL>", "<|python_tag|>"]);
    assert_eq!(config.tool_call_end_tokens, vec!["</TOOLCALL>", ""]);
    assert_eq!(config.function_name_keys, vec!["name"]);
    assert_eq!(config.arguments_keys, vec!["arguments", "parameters"]);
    assert!(config.tool_call_separator_tokens.is_empty());
    assert_eq!(config.parser_type, JsonParserType::Basic);
    assert!(config.repair_truncated_body);
    assert!(!config.bare_json_mode && !config.allow_eof_recovery);
    assert!(!config.strip_markup_on_recovery && !config.preserve_normal_text_whitespace);
}

#[test]
fn start_and_end_tokens_of_the_families() {
    let tokens = |c: ToolCallConfig| {
        (c.parser_config.tool_call_start_tokens(), c.parser_config.tool_call_end_tokens())
    };
    let pair = |s: Vec<&str>, e: Vec<&str>| {
        let own = |v: Vec<&str>| v.into_iter().map(|t| t.to_string()).collect::<Vec<String>>();
        (own(s), own(e))
    };
    assert_eq!(tokens(ToolCallConfig::hermes()), pair(vec!["<tool_call>"], vec!["</tool_call>"]));
    assert_eq!(
        tokens(ToolCallConfig::nemotron_deci()),
        pair(vec!["<TOOLCALL>"], vec!["</TOOLCALL>"])
    );
    assert_eq!(tokens(ToolCallConfig::llama3_json()), pair(vec!["<|python_tag|>"], vec![""]));
    assert_eq!(
        tokens(ToolCallConfig::mistral()),
        pair(vec!["[TOOL_CALLS]"], vec!["[/TOOL_CALLS]", ""])
    );
    assert_eq!(tokens(ToolCallConfig::phi4()), pair(vec!["functools"], vec![""]));
    assert_eq!(tokens(ToolCallConfig::pythonic()), pair(vec![], vec![]));
    assert_eq!(
        tokens(ToolCallConfig::harmony()),
        pair(
            vec!["<|start|>assistant<|channel|>commentary", "<|channel|>commentary"],
            vec!["<|call|>"]
        )
    );
    assert_eq!(
        tokens(ToolCallConfig::deepseek_v3_1()),
        pair(vec!["<｜tool▁calls▁begin｜>"], vec!["<｜tool▁calls▁end｜>"])
    );
    assert_eq!(tokens(ToolCallConfig::deepseek_v3()), tokens(ToolCallConfig::deepseek_v3_1()));
    assert_eq!(
        tokens(ToolCallConfig::qwen3_coder()),
        pair(vec!["<tool_call>", "<function="], vec!["</tool_call>"])
    );
    assert_eq!(tokens(ToolCallConfig::jamba()), pair(vec!["<tool_calls>"], vec!["</tool_calls>"]));
    assert_eq!(
        tokens(ToolCallConfig::minimax_m2()),
        pair(vec!["<minimax:tool_call>", "<invoke name="], vec!["</minimax:tool_call>"])
    );
    assert_eq!(tokens(ToolCallConfig::glm47()), pair(vec!["<tool_call>"], vec!["</tool_call>"]));
    assert_eq!(
        tokens(ToolCallConfig::kimi_k2()),
        pair(
            vec![
                "<|tool_calls_section_begin|>",
                "<|tool_call_section_begin|>",
                "<|tool_call_begin|>"
            ],
            vec!["<|tool_calls_section_end|>", "<|tool_call_section_end|>"]
        )
    );
    assert_eq!(tokens(ToolCallConfig::gemma4()), pair(vec!["<|tool_call>"], vec!["<tool_call|>"]));
}

#[test]
fn deepseek_dialects_differ() {
    let json = |c: ToolCallConfig| match c.parser_config {
        ParserConfig::Json(c) => c,
        _ => panic!("expected JSON"),
    };
    let v3 = json(ToolCallConfig::deepseek_v3());
    let v3_1 = json(ToolCallConfig::deepseek_v3_1());
    assert_eq!(v3.parser_type, JsonParserType::DeepseekV3);
    assert_eq!(v3_1.parser_type, JsonParserType::DeepseekV31);
    assert_eq!(v3.tool_call_separator_tokens, vec!["<｜tool▁sep｜>"]);
    assert_eq!(v3_1.tool_call_separator_tokens, vec!["<｜tool▁sep｜>"]);
}

#[test]
fn switches_of_the_families() {
    let json = |c: ToolCallConfig| match c.parser_config {
        ParserConfig::Json(c) => c,
        _ => panic!("expected JSON"),
    };
    let hermes = json(ToolCallConfig::hermes());
    assert!(hermes.preserve_normal_text_whitespace && !hermes.repair_truncated_body);
    assert!(hermes.drop_unusable_json_wrapper && hermes.drop_partial_markup_on_stream_finalize);
    assert!(hermes.recover_trailing_unclosed_call && !hermes.strip_markup_on_recovery);
    assert!(json(ToolCallConfig::nemotron_deci()).strip_markup_on_recovery);
    let xml = |c: ToolCallConfig| match c.parser_config {
        ParserConfig::Xml(c) => c,
        _ => panic!("expected XML"),
    };
    let minimax = xml(ToolCallConfig::minimax_m2());
    assert!(minimax.strict_match && minimax.backoff_when_no_wrapper);
    assert!(!minimax.passthrough_when_no_function);
    let qwen = xml(ToolCallConfig::qwen3_coder());
    assert!(!qwen.strict_match && qwen.backoff_when_no_wrapper);
    assert!(qwen.passthrough_when_no_function);
}

#[test]
fn triggered_tags() {
    let tags = |c: ToolCallConfig| match c.structural_tag_builder {
        Some(StructuralTagBuilder::TriggeredTags(t)) => t,
        _ => panic!("expected triggered tags"),
    };
    let hermes = tags(ToolCallConfig::hermes());
    assert_eq!(
        hermes.begin_template,
        format!("<tool_call>\n{{\"name\": \"{}\", \"arguments\": ", TOOL_NAME_PLACEHOLDER)
    );
    assert_eq!(hermes.end_template, "}\n</tool_call>");
    assert_eq!(hermes.triggers, vec!["<tool_call>"]);
    assert_eq!(hermes.content_style, JsonSchemaStyle::Json);
    let qwen = tags(ToolCallConfig::qwen3_coder());
    assert_eq!(
        qwen.begin_template,
        format!("<tool_call>\n<function={}>\n", TOOL_NAME_PLACEHOLDER)
    );
    assert_eq!(qwen.end_template, "\n</function>\n</tool_call>");
    assert_eq!(qwen.triggers, vec!["<tool_call>\n<function="]);
    assert_eq!(qwen.content_style, JsonSchemaStyle::QwenXml);
    assert_eq!(qwen.tool_call_ban_tokens, vec!["<tool_call>"]);
}

#[test]
fn bare_function_mode() {
    let config = XmlParserConfig { backoff_when_no_wrapper: true, ..Default::default() };
    assert!(config.is_bare_function_mode("x <function=f>"));
    assert!(!config.is_bare_function_mode("<tool_call><function=f>"));
    assert!(!config.is_bare_function_mode("x"));
    assert!(!XmlParserConfig::default().is_bare_function_mode("<function=f>"));
}

#[test]
fn other_defaults() {
    let glm = Glm47ParserConfig::default();
    assert_eq!((glm.arg_key_start.as_str(), glm.arg_value_end.as_str()), ("<arg_key>", "</arg_value>"));
    let kimi = KimiK2ParserConfig::default();
    assert_eq!(kimi.section_start, kimi.section_start_variants[0]);
    assert_eq!(kimi.argument_begin, "<|tool_call_argument_begin|>");
    assert_eq!(JsonParserConfig::default().tool_call_end_tokens[1], "");
}
