//! Parsing model output into tool calls and normal text.

use toolcall::base_json_parser::{
    detect_tool_call_start_basic_json, extract_tool_call_content,
    extract_tool_call_content_eof_recovery, handle_single_token_tool_calls, join_bodies, settle,
    drop_empty, strict_recovery_takes_over, try_parse_normal_text, try_tool_call_parse_basic_json, Reading,
};
use toolcall::config::{JsonParserConfig, ParserConfig, ToolCallConfig};
use toolcall::frames::{find_frames, rest_after_frames};
use toolcall::json::{read_members, take_value};
use toolcall::json_calls::{
    parse_calls, sole_member, CalledFunctionArguments, CalledFunctionParameters,
};
use toolcall::json_repair::try_repair_truncated_json;
use toolcall::response::ToolCallResponse;

fn json_config(config: ToolCallConfig) -> JsonParserConfig {
    match config.parser_config {
        ParserConfig::Json(c) => c,
        _ => panic!("expected a JSON family"),
    }
}

fn at_the_end(mut config: JsonParserConfig) -> JsonParserConfig {
    config.allow_eof_recovery = true;
    config
}

/// The names and arguments of the calls, and the normal text.
fn parse(message: &str, config: &JsonParserConfig) -> (Vec<(String, String)>, String) {
    let (calls, normal) = try_tool_call_parse_basic_json(message, config, None).unwrap();
    let calls = calls.into_iter().map(|c| (c.function.name, c.function.arguments)).collect();
    (calls, normal.unwrap())
}

fn call(name: &str, arguments: &str) -> (String, String) {
    (name.to_string(), arguments.to_string())
}

#[test]
fn test_repair_eof_after_backslash() {
    let repaired = try_repair_truncated_json(r#"{"k":"a\"#).expect("must repair");
    assert!(
        serde_json::from_str::<serde_json::Value>(&repaired).is_ok(),
        "repaired must parse: {:?}",
        repaired
    );
}

#[test]
fn repair_closes_what_is_open() {
    assert_eq!(try_repair_truncated_json(r#"{"a":[1,{"b":"c"#).unwrap(), r#"{"a":[1,{"b":"c"}]}"#);
    assert_eq!(try_repair_truncated_json("[[").unwrap(), "[[]]");
    assert_eq!(try_repair_truncated_json(r#"{"k":"a\"#).unwrap(), r#"{"k":"a\\"}"#);
    assert_eq!(try_repair_truncated_json(r#""{["#).unwrap(), r#""{[""#);
}

#[test]
fn repair_leaves_balanced_text_alone() {
    assert!(try_repair_truncated_json("").is_none());
    assert!(try_repair_truncated_json(r#"{"a":"}"}"#).is_none());
    assert!(try_repair_truncated_json("}]").is_none());
    assert!(try_repair_truncated_json(r#"{"a":"\""}"#).is_none());
}

#[test]
fn repair_twice_is_repair_once() {
    for s in [r#"{"a":"\"#, "[{[", r#"["x", {"y": ""#, "{]{"] {
        let once = try_repair_truncated_json(s).unwrap();
        assert!(once.starts_with(s));
        assert!(try_repair_truncated_json(&once).is_none());
    }
}

#[test]
fn call_under_either_key() {
    let c = CalledFunctionArguments::read(r#"{"name":"f","arguments":{"x": 1}}"#).unwrap();
    assert_eq!((c.name.as_str(), c.arguments.as_str()), ("f", r#"{"x": 1}"#));
    let c = CalledFunctionParameters::read(r#"{"name":"f","parameters":[1]}"#).unwrap();
    assert_eq!((c.name.as_str(), c.parameters.as_str()), ("f", "[1]"));
    assert!(CalledFunctionArguments::read(r#"{"name":"f","parameters":{}}"#).is_none());
    assert!(CalledFunctionParameters::read(r#"{"name":"f","arguments":{}}"#).is_none());
}

#[test]
fn call_may_be_a_pair() {
    let c = CalledFunctionArguments::read(r#" [ "f" , {"x":1} ] "#).unwrap();
    assert_eq!((c.name.as_str(), c.arguments.as_str()), ("f", r#"{"x":1}"#));
    assert!(CalledFunctionArguments::read(r#"["f"]"#).is_none());
    assert!(CalledFunctionArguments::read(r#"["f", 1, 2]"#).is_none());
}

#[test]
fn call_needs_one_string_name_and_one_value() {
    for s in [
        r#"{"arguments":{}}"#,
        r#"{"name":1,"arguments":{}}"#,
        r#"{"name":"f"}"#,
        r#"{"name":"f","name":"g","arguments":{}}"#,
        r#"{"name":"f","arguments":{},"arguments":{}}"#,
        r#"{"name":"f","arguments":{}} x"#,
        "{}",
        "7",
        "",
    ] {
        assert!(CalledFunctionArguments::read(s).is_none(), "{}", s);
    }
    let c = CalledFunctionArguments::read(r#"{"id":{"name":"g"},"name":"f","x":[],"arguments":null}"#);
    assert_eq!(c.unwrap().arguments, "null");
}

#[test]
fn names_are_unescaped_and_arguments_are_not() {
    let c = CalledFunctionArguments::read("{\"n\\u0061me\":\"a\\n\",\"arguments\":\"a\\n\"}").unwrap();
    assert_eq!(c.name, "a\n");
    assert_eq!(c.arguments, "\"a\\n\"");
}

#[test]
fn parse_calls_prefers_arguments() {
    let payload = r#"{"name":"f","parameters":1,"arguments":2}"#;
    let calls = parse_calls(payload).unwrap();
    assert_eq!(calls.len(), 1);
    assert_eq!(calls[0].function.arguments, "2");
    let calls = parse_calls(&format!("[{}]", payload)).unwrap();
    assert_eq!(calls[0].function.arguments, "2");
}

#[test]
fn parse_calls_skips_malformed_elements() {
    let calls =
        parse_calls(r#"[1, {"name":"f","arguments":{}}, {"x":2}, {"name":"g","parameters":[]}]"#)
            .unwrap();
    let names: Vec<&str> = calls.iter().map(|c| c.function.name.as_str()).collect();
    assert_eq!(names, vec!["f", "g"]);
    assert_eq!(parse_calls("[]").unwrap().len(), 0);
    assert_eq!(parse_calls("[1,2]").unwrap().len(), 0);
    assert!(parse_calls(r#"{"x":1}"#).is_none());
    assert!(parse_calls("plain").is_none());
    assert!(parse_calls("").is_none());
}

#[test]
fn identifiers_are_random_uuids() {
    let calls = parse_calls(r#"[{"name":"f","arguments":{}},{"name":"f","arguments":{}}]"#).unwrap();
    for c in &calls {
        let uuid = c.id.strip_prefix("call-").unwrap();
        assert_eq!(uuid.len(), 36);
        let chars: Vec<char> = uuid.chars().collect();
        for (k, ch) in chars.iter().enumerate() {
            if k == 8 || k == 13 || k == 18 || k == 23 {
                assert_eq!(*ch, '-');
            } else {
                assert!(ch.is_ascii_hexdigit() && !ch.is_ascii_uppercase());
            }
        }
        assert_eq!(chars[14], '4');
        assert!("89ab".contains(chars[19]));
    }
    assert_ne!(calls[0].id, calls[1].id);
    let made = ToolCallResponse::with_uuid("u", "f".to_string(), "{}".to_string());
    assert_eq!(made.id, "call-u");
}

#[test]
fn members_are_listed_as_written() {
    let ms = read_members("{ \"a\" : 1.50 , \"b\":[ 2 ] ,\"a\":{} }").unwrap();
    assert_eq!(
        ms,
        vec![
            ("a".to_string(), "1.50".to_string()),
            ("b".to_string(), "[ 2 ]".to_string()),
            ("a".to_string(), "{}".to_string()),
        ]
    );
    assert_eq!(read_members("{ }").unwrap(), vec![]);
    assert!(read_members("[1]").is_none());
    assert!(read_members("{\"a\":1").is_none());
    assert!(sole_member(&ms, "a").is_none());
    assert_eq!(sole_member(&ms, "b").unwrap(), "[ 2 ]");
    assert!(sole_member(&ms, "c").is_none());
    assert_eq!(take_value(" {} ; x").unwrap(), ("{}".to_string(), "; x".to_string()));
    assert!(take_value("x").is_none());
}

#[test]
fn frames_are_shortest_and_do_not_overlap() {
    let text = "a<s>b</s>c<s>\nd<s>e</s>f";
    assert_eq!(find_frames(text, "<s>", "</s>").unwrap(), vec!["b", "\nd<s>e"]);
    assert_eq!(rest_after_frames(text, "<s>", "</s>"), "f");
    assert!(find_frames("</s><s>", "<s>", "</s>").unwrap().is_empty());
    assert_eq!(rest_after_frames("</s><s>", "<s>", "</s>"), "</s><s>");
    assert_eq!(find_frames("x(.*?)y[^a]$z", "(.*?)", "[^a]$").unwrap(), vec!["y"]);
}

#[test]
fn content_between_tokens() {
    let one = extract_tool_call_content("x<s> 1 </s>", "<s>", "</s>");
    assert_eq!(one.unwrap(), "1");
    let two = extract_tool_call_content("<s>1</s> and <s> 2</s>", "<s>", "</s>");
    assert_eq!(two.unwrap(), "[1,2]");
    let empty = extract_tool_call_content("<s> </s><s>1</s>", "<s>", "</s>");
    assert_eq!(empty.unwrap(), "[,1]");
    assert!(extract_tool_call_content("<s>1", "<s>", "</s>").is_none());
    assert_eq!(join_bodies(&vec![]), "");
    let bodies = vec![String::new(), "1".to_string(), String::new()];
    assert_eq!(drop_empty(&bodies), vec!["1"]);
}

#[test]
fn content_without_end_token() {
    assert_eq!(extract_tool_call_content_eof_recovery("a<s> {x ", "<s>").unwrap(), "{x");
    assert_eq!(extract_tool_call_content_eof_recovery("a<s>[", "<s>").unwrap(), "[");
    assert!(extract_tool_call_content_eof_recovery("a<s>x{", "<s>").is_none());
    assert!(extract_tool_call_content_eof_recovery("{", "<s>").is_none());
}

#[test]
fn announced_values() {
    let f = |s: &str| handle_single_token_tool_calls(s, "<|t|>");
    assert!(f("{}").is_none());
    assert_eq!(f("<|t|>").unwrap(), "");
    assert_eq!(f("<|t|>nothing").unwrap(), "");
    assert_eq!(f(r#"a<|t|>{"a": ";"} ; {"b":1} and so on"#).unwrap(), r#"[{"a": ";"},{"b":1}]"#);
    assert_eq!(f(r#"<|t|>[{"a":1}, 2] tail]<|t|>{"b":1}"#).unwrap(), r#"[{"b":1}]"#);
    assert_eq!(f(r#"<|t|>[{"a": 1}, 2] tail<|t|>{"b":1}"#).unwrap(), r#"[{"a": 1},2,{"b":1}]"#);
    assert_eq!(f(r#"{"x":0}<|t|>{"b":1"#).unwrap(), r#"[{"x":0}]"#);
}

#[test]
fn text_before_a_token() {
    assert_eq!(try_parse_normal_text(" a <s>b<s>", "<s>"), "a");
    assert_eq!(try_parse_normal_text("a ", "<s>"), "");
    assert_eq!(try_parse_normal_text(" a [TOOL_CALLS][]", "[TOOL_CALLS]"), " a ");
}

#[test]
fn closed_call_is_found() {
    let config = JsonParserConfig::default();
    let (calls, normal) = parse(
        r#" Let me see. <TOOLCALL>[{ "name": "search", "parameters": { "query": "rust" } }]</TOOLCALL>"#,
        &config,
    );
    assert_eq!(calls, vec![call("search", r#"{ "query": "rust" }"#)]);
    assert_eq!(normal, "Let me see.");
}

#[test]
fn announced_call_is_found() {
    let config = json_config(ToolCallConfig::llama3_json());
    let (calls, normal) =
        parse(r#"Hm <|python_tag|>{ "name": "q", "arguments": { "s": "a;b" } }"#, &config);
    assert_eq!(calls, vec![call("q", r#"{ "s": "a;b" }"#)]);
    assert_eq!(normal, "Hm");
    let (calls, normal) = parse("Hm <|python_tag|> WinRM: [status]", &config);
    assert_eq!((calls.len(), normal.as_str()), (0, ""));
}

#[test]
fn announced_arguments_stay_as_written() {
    let mistral = json_config(ToolCallConfig::mistral());
    let (calls, normal) = parse(
        r#"[TOOL_CALLS][{"name":"f","arguments":{ "b": 1.50 }}, {"name":"g","arguments": "x" }]"#,
        &mistral,
    );
    assert_eq!(calls, vec![call("f", r#"{ "b": 1.50 }"#), call("g", r#""x""#)]);
    assert_eq!(normal, "");
    let default = JsonParserConfig::default();
    let (calls, _) = parse(r#"<|python_tag|>{"name":"f","arguments":{ "b" : [ ] }}"#, &default);
    assert_eq!(calls, vec![call("f", r#"{ "b" : [ ] }"#)]);
    let (calls, _) = parse(r#"<TOOLCALL>{"name":"f","arguments":{ "b" : 2 }} more"#, &default);
    assert_eq!(calls, vec![call("f", r#"{ "b" : 2 }"#)]);
}

#[test]
fn bare_call_is_found() {
    let config = json_config(ToolCallConfig::phi4());
    let (calls, normal) = parse(r#"Sure. {"name":"f","arguments":{"b": 1, "a": 2}}"#, &config);
    assert_eq!(calls, vec![call("f", r#"{"b": 1, "a": 2}"#)]);
    assert_eq!(normal, "Sure.");
    let (calls, _) = parse(r#"functools[{"name":"f","arguments":{}}]"#, &config);
    assert_eq!(calls, vec![call("f", "{}")]);
}

#[test]
fn several_closed_calls_are_found() {
    let config = json_config(ToolCallConfig::jamba());
    let text = r#"<tool_calls>{"name":"f","arguments":{}}</tool_calls><tool_calls>{"name":"g","arguments":1}</tool_calls>"#;
    assert_eq!(parse(text, &config).0, vec![call("f", "{}"), call("g", "1")]);
}

#[test]
fn mistral_keeps_the_space_before_its_token() {
    let config = json_config(ToolCallConfig::mistral());
    let (calls, normal) = parse(r#" Hello [TOOL_CALLS][{"name":"f","arguments":{}}]"#, &config);
    assert_eq!(calls, vec![call("f", "{}")]);
    assert_eq!(normal, "Hello ");
    let (calls, _) = parse(r#"[TOOL_CALLS][{"name":"f","arguments":{}}][/TOOL_CALLS]"#, &config);
    assert_eq!(calls, vec![call("f", "{}")]);
}

#[test]
fn hermes_keeps_the_narration() {
    let config = json_config(ToolCallConfig::hermes());
    let (calls, normal) = parse(
        " I will check. <tool_call>\n{\"name\": \"f\", \"arguments\": {}}\n</tool_call>",
        &config,
    );
    assert_eq!(calls, vec![call("f", "{}")]);
    assert_eq!(normal, " I will check. ");
}

#[test]
fn hermes_drops_a_wrapper_that_is_no_call() {
    let config = json_config(ToolCallConfig::hermes());
    assert_eq!(parse(r#"x <tool_call>{"name": "f"}</tool_call>"#, &config), (vec![], String::new()));
    let plain = "x <tool_call>not json</tool_call>";
    assert_eq!(parse(plain, &config), (vec![], plain.to_string()));
    let other = json_config(ToolCallConfig::jamba());
    let text = r#"<tool_calls>{"name": "f"}</tool_calls>"#;
    assert_eq!(parse(text, &other), (vec![], text.to_string()));
}

#[test]
fn hermes_recovers_a_last_call_at_the_end() {
    let closed = r#"<tool_call>{"name":"f","arguments":{}}</tool_call>"#;
    let open = r#"<tool_call>{"name":"g","arguments":{}}"#;
    let config = json_config(ToolCallConfig::hermes());
    let text = format!("{}{}", closed, open);
    assert_eq!(parse(&text, &config).0, vec![call("f", "{}")]);
    let config = at_the_end(config);
    assert_eq!(parse(&text, &config).0, vec![call("f", "{}"), call("g", "{}")]);
    let cut = format!("{}{}", closed, r#"<tool_call>{"name":"g","argu"#);
    assert_eq!(parse(&cut, &config).0, vec![call("f", "{}")]);
}

#[test]
fn missing_end_token_waits_for_the_end() {
    let text = r#"<TOOLCALL>[{"name":"f","arguments":{"a":1}}]"#;
    let config = json_config(ToolCallConfig::nemotron_deci());
    assert_eq!(parse(text, &config), (vec![], text.to_string()));
    let config = at_the_end(config);
    assert_eq!(parse(text, &config), (vec![call("f", r#"{"a":1}"#)], String::new()));
}

#[test]
fn truncated_body_is_repaired_at_the_end() {
    let text = r#"<TOOLCALL>[{"name":"f","arguments":{"a":"b"#;
    let mut config = at_the_end(json_config(ToolCallConfig::jamba()));
    config.tool_call_start_tokens = vec!["<TOOLCALL>".to_string()];
    assert_eq!(parse(text, &config).0, vec![call("f", r#"{"a":"b"}"#)]);
    config.repair_truncated_body = false;
    assert_eq!(parse(text, &config), (vec![], text.to_string()));
}

#[test]
fn strict_recovery_salvages_or_drops() {
    let config = at_the_end(json_config(ToolCallConfig::nemotron_deci()));
    let orphan = r#"[{"name":"f","arguments":{}}]</TOOLCALL>"#;
    assert_eq!(parse(orphan, &config), (vec![call("f", "{}")], String::new()));
    let preamble = format!("Let me check.{}", orphan);
    assert_eq!(parse(&preamble, &config), (vec![call("f", "{}")], String::new()));
    let inside = r#"[{"name":"f","arguments":"</TOOLCALL>"}] </TOOLCALL> </TOOLCALL>"#;
    assert_eq!(parse(inside, &config).0, vec![call("f", r#""</TOOLCALL>""#)]);
    assert_eq!(parse("junk </TOOLCALL>", &config), (vec![], String::new()));
    assert_eq!(parse(" no call here ", &config), (vec![], "no call here".to_string()));
    let mid = json_config(ToolCallConfig::nemotron_deci());
    assert_eq!(parse(orphan, &mid), (vec![], orphan.to_string()));
}

#[test]
fn strict_recovery_is_reported() {
    let config = at_the_end(json_config(ToolCallConfig::nemotron_deci()));
    let orphan = r#"[{"name":"f","arguments":{}}]</TOOLCALL>"#;
    assert!(strict_recovery_takes_over(orphan, &config));
    assert!(strict_recovery_takes_over("junk </TOOLCALL>", &config));
    let closed = r#"<TOOLCALL>[{"name":"f","arguments":{}}]</TOOLCALL>"#;
    assert!(!strict_recovery_takes_over(closed, &config));
    assert!(!strict_recovery_takes_over("<TOOLCALL></TOOLCALL>", &config));
    assert!(!strict_recovery_takes_over(" no call here ", &config));
    assert!(!strict_recovery_takes_over("  ", &config));
    let mid = json_config(ToolCallConfig::nemotron_deci());
    assert!(!strict_recovery_takes_over(orphan, &mid));
}

#[test]
fn empty_wrapper_gives_nothing() {
    let config = json_config(ToolCallConfig::jamba());
    assert_eq!(parse("x <tool_calls> </tool_calls>", &config), (vec![], String::new()));
}

#[test]
fn blank_message_gives_nothing() {
    let config = JsonParserConfig::default();
    assert_eq!(parse("", &config), (vec![], String::new()));
    assert_eq!(parse(" \n ", &config), (vec![], String::new()));
}

#[test]
fn without_tokens_text_passes() {
    let mut config = JsonParserConfig::default();
    config.tool_call_start_tokens = vec![];
    let text = r#"{"name":"f","arguments":{}}"#;
    assert_eq!(parse(text, &config), (vec![], text.to_string()));
    config.bare_json_mode = true;
    assert_eq!(parse(text, &config), (vec![call("f", "{}")], String::new()));
}

#[test]
fn bare_mode_ignores_tokens() {
    let text = r#"<TOOLCALL>{"name":"f","arguments":{}}</TOOLCALL>"#;
    let mut config = at_the_end(json_config(ToolCallConfig::nemotron_deci()));
    config.bare_json_mode = true;
    let with_tokens = parse(text, &config);
    config.tool_call_start_tokens = vec![];
    config.tool_call_end_tokens = vec!["}".to_string()];
    assert_eq!(parse(text, &config), with_tokens);
    assert_eq!(with_tokens, (vec![], text.to_string()));
}

#[test]
fn recovery_switches_wait_for_the_end() {
    let texts = [
        r#"<tool_call>{"name":"f","arguments":{}}</tool_call><tool_call>{"name":"g","arguments":{}}"#,
        r#"<tool_call>{"name":"g","argum"#,
        r#"junk</tool_call>"#,
    ];
    for text in texts {
        let mut config = json_config(ToolCallConfig::hermes());
        let before = parse(text, &config);
        config.strip_markup_on_recovery = true;
        config.repair_truncated_body = true;
        config.recover_trailing_unclosed_call = false;
        assert_eq!(parse(text, &config), before);
    }
}

#[test]
fn arguments_stay_as_they_were_written() {
    let config = json_config(ToolCallConfig::hermes());
    let arguments = "{ \"z\": 1.0e2,\n  \"a\" : [ 1,2 ], \"n\": -0 }";
    let text = format!("<tool_call>{{\"name\": \"f\", \"arguments\": {}}}</tool_call>", arguments);
    let (calls, _) = parse(&text, &config);
    assert_eq!(calls, vec![call("f", arguments)]);
    assert!(text.contains(&calls[0].1));
}

#[test]
fn arguments_of_several_calls_stay_as_they_were_written() {
    let announced = json_config(ToolCallConfig::llama3_json());
    let framed = json_config(ToolCallConfig::jamba());
    let first = r#"{"name": "f", "arguments": { "b" :1.50, "a":"x;y" }}"#;
    let second = r#"{"name":"g","parameters":[ 1 , 2 ]}"#;
    let expected = vec![call("f", r#"{ "b" :1.50, "a":"x;y" }"#), call("g", "[ 1 , 2 ]")];
    let text = format!("<|python_tag|>{} ;\n{}", first, second);
    assert_eq!(parse(&text, &announced).0, expected);
    let text = format!("<|python_tag|>{}<|python_tag|>{}", first, second);
    assert_eq!(parse(&text, &announced).0, expected);
    let text =
        format!("<tool_calls>{}</tool_calls>\n<tool_calls> {} </tool_calls>", first, second);
    assert_eq!(parse(&text, &framed).0, expected);
    for (_, arguments) in &expected {
        assert!(text.contains(arguments));
    }
}

#[test]
fn where_calls_are_parsed_a_start_is_detected() {
    let texts = [
        r#"<tool_call>{"name":"f","arguments":{}}</tool_call>"#,
        r#"x {"name":"f","arguments":{}}"#,
        "plain text",
        "[]",
    ];
    let config = json_config(ToolCallConfig::hermes());
    for text in texts {
        if !parse(text, &config).0.is_empty() {
            assert!(detect_tool_call_start_basic_json(text, &config));
        }
    }
    assert!(!detect_tool_call_start_basic_json("plain text", &config));
}

#[test]
fn readings_settle() {
    let c = parse_calls(r#"{"name":"f","arguments":{}}"#).unwrap();
    let last = parse_calls(r#"{"name":"g","arguments":{}}"#).unwrap().remove(0);
    let both = vec![c[0].clone(), last.clone()];
    let done = |reading: Reading, trailing: Option<ToolCallResponse>| {
        let (calls, text) =
            settle(reading, trailing, "trimmed", "normal".to_string(), "narrated ".to_string());
        (calls, text.unwrap())
    };
    let text = |s: &str| s.to_string();
    assert_eq!(done(Reading::Recognized(c.clone()), None), (c.clone(), text("narrated ")));
    assert_eq!(done(Reading::Recognized(vec![]), None), (vec![], text("normal")));
    assert_eq!(done(Reading::Salvaged(Some(c.clone())), None), (c.clone(), text("")));
    assert_eq!(done(Reading::Salvaged(None), None), (vec![], text("")));
    assert_eq!(done(Reading::Dropped, None), (vec![], text("")));
    assert_eq!(done(Reading::Unusable, None), (vec![], text("trimmed")));
    assert_eq!(done(Reading::Unread, None), (vec![], text("trimmed")));
    let some = Some(last.clone());
    assert_eq!(done(Reading::Recognized(c), some.clone()), (both, text("narrated ")));
    assert_eq!(done(Reading::Dropped, some.clone()), (vec![last], text("narrated ")));
    assert_eq!(done(Reading::Unread, some), (vec![], text("trimmed")));
}

#[test]
fn last_call_follows_what_the_closed_bodies_give() {
    let config = at_the_end(json_config(ToolCallConfig::hermes()));
    let open = r#"<tool_call>{"name":"c","arguments":{}}"#;
    let closed = |body: &str| format!("<tool_call>{}</tool_call>", body);
    let a = r#"{"name":"a","arguments":{}}"#;
    let b = r#"{"name":"b","arguments":1}"#;
    let calls = |text: String| parse(&text, &config);
    let names = |text: String| {
        calls(text).0.into_iter().map(|(name, _)| name).collect::<Vec<String>>()
    };
    assert_eq!(names(format!("{}{}", closed(&format!("[{}]", a)), open)), vec!["a", "c"]);
    assert_eq!(names(format!("{}{}", closed(&format!("[{},{}]", a, b)), open)), vec!["a", "b", "c"]);
    assert_eq!(names(format!("{}{}{}", closed(a), closed(b), open)), vec!["a", "b", "c"]);
    assert_eq!(names(format!("{}{}", closed("[]"), open)), vec!["c"]);
    assert_eq!(names(format!("{}{}", closed(r#"{"name":"f"}"#), open)), vec!["c"]);
    let (found, text) = calls(format!("hi  {}{}", closed(" "), open));
    assert_eq!(found, vec![call("c", "{}")]);
    assert_eq!(text, "hi  ");
    assert_eq!(names(format!("{}{}{}", closed(""), closed(a), open)), vec!["a", "c"]);
    let junk = format!("{}{}", closed("junk"), open);
    assert_eq!(calls(junk.clone()), (vec![], junk));
    let no_call = format!("{}<tool_call>{{\"x\":1}}", closed(a));
    assert_eq!(names(no_call), vec!["a"]);
}

#[test]
fn last_call_follows_repaired_and_salvaged_calls() {
    let mut config = at_the_end(json_config(ToolCallConfig::hermes()));
    config.repair_truncated_body = true;
    let open = r#"<tool_call>{"name":"c","arguments":{}}"#;
    let cut = format!(r#"<tool_call>{{"name":"a","arguments":{{</tool_call>{}"#, open);
    assert_eq!(parse(&cut, &config).0, vec![call("a", "{}"), call("c", "{}")]);
    config.repair_truncated_body = false;
    config.strip_markup_on_recovery = true;
    let nested =
        format!(r#"x <tool_call><tool_call>{{"name":"a","arguments":{{}}}}</tool_call>{}"#, open);
    let (calls, text) = parse(&nested, &config);
    assert_eq!(calls, vec![call("a", "{}"), call("c", "{}")]);
    assert_eq!(text, "");
}

#[test]
fn narration_is_trimmed_where_no_call_is_found() {
    let config = json_config(ToolCallConfig::hermes());
    assert_eq!(parse("hi  <tool_call>[]</tool_call>", &config), (vec![], "hi".to_string()));
    assert_eq!(parse(" hi  []", &config), (vec![], "hi".to_string()));
    let found = parse(r#"hi  <tool_call>{"name":"f","arguments":{}}</tool_call>"#, &config);
    assert_eq!(found, (vec![call("f", "{}")], "hi  ".to_string()));
}

#[test]
fn salvaged_arguments_stay_as_they_were_written() {
    let config = at_the_end(json_config(ToolCallConfig::nemotron_deci()));
    let text = "[{\"name\":\"f\",\"arguments\":{ \"b\" : 1.50 }}] </TOOLCALL>";
    let (calls, _) = parse(text, &config);
    assert_eq!(calls, vec![call("f", "{ \"b\" : 1.50 }")]);
    assert!(text.contains(&calls[0].1));
}

#[test]
fn valid_json_is_never_repaired() {
    for s in [r#" {"a":["}",{"b":"\\"}]} "#, "[]", "1e5", r#""[{""#, "null", r#"{"\"":"\u005b"}"#] {
        assert!(serde_json::from_str::<serde_json::Value>(s).is_ok(), "{}", s);
        assert!(try_repair_truncated_json(s).is_none(), "{}", s);
    }
}
