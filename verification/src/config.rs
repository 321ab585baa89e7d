//! Configuration of the tool-call formats that model families emit.

use vstd::prelude::*;

use crate::structural_tag;
use crate::structural_tag::{
    DsmlToolCallsConfig, JsonSchemaStyle, StructuralTagBuilder, TriggeredTagsConfig,
    TOOL_NAME_PLACEHOLDER,
};
use crate::text;

verus! {

/// The dialect of a JSON tool-call format.
#[derive(Clone, Copy, Debug, PartialEq, Eq, Structural)]
pub enum JsonParserType {
    Basic,
    DeepseekV3,
    DeepseekV31,
}

impl Default for JsonParserType {
    fn default() -> (r: Self)
        ensures
            r == JsonParserType::Basic,
    {
        JsonParserType::Basic
    }
}

/// Configuration of a format that carries its calls as JSON.
#[derive(Clone, Debug)]
pub struct JsonParserConfig {
    /// Start tokens of a tool call, such as `<TOOLCALL>`.
    pub tool_call_start_tokens: Vec<String>,
    /// End tokens of a tool call, such as `</TOOLCALL>`.
    pub tool_call_end_tokens: Vec<String>,
    /// Tokens that separate the name of a function from its arguments.
    pub tool_call_separator_tokens: Vec<String>,
    /// The keys that a function's name stands under.
    pub function_name_keys: Vec<String>,
    /// The keys that a function's arguments stand under.
    pub arguments_keys: Vec<String>,
    /// The dialect to parse.
    pub parser_type: JsonParserType,
    /// Read the input as bare JSON with no wrapping markers. The start and end tokens are
    /// then ignored.
    pub bare_json_mode: bool,
    /// Allow recovery when the end token is missing. A parser of a stream that has not
    /// ended leaves this `false`, since the end token may still arrive.
    pub allow_eof_recovery: bool,
    /// Never let wrapper markers into the normal text: where nothing parses, strip the
    /// markers off the payload and parse what remains, and drop the content where that
    /// fails too. Takes effect together with `allow_eof_recovery` only.
    pub strip_markup_on_recovery: bool,
    /// Keep the white space of the narration before a tool call as it was emitted.
    pub preserve_normal_text_whitespace: bool,
    /// Balance a truncated JSON body and parse it again on the recovery path.
    pub repair_truncated_body: bool,
    /// Drop a wrapper that is closed and whose body is complete JSON but no usable call.
    pub drop_unusable_json_wrapper: bool,
    /// Where a stream ends inside a tool call of which nothing was recovered, drop the
    /// partial markup. Concerns the end of a stream only.
    pub drop_partial_markup_on_stream_finalize: bool,
    /// Recover a last call whose end token is missing but whose JSON body is complete,
    /// where it follows calls that are closed.
    pub recover_trailing_unclosed_call: bool,
}

/// What a [`JsonParserConfig`] holds.
pub struct JsonParserConfigView {
    pub start_tokens: Seq<Seq<char>>,
    pub end_tokens: Seq<Seq<char>>,
    pub separator_tokens: Seq<Seq<char>>,
    pub function_name_keys: Seq<Seq<char>>,
    pub arguments_keys: Seq<Seq<char>>,
    pub parser_type: JsonParserType,
    pub bare_json_mode: bool,
    pub allow_eof_recovery: bool,
    pub strip_markup_on_recovery: bool,
    pub preserve_normal_text_whitespace: bool,
    pub repair_truncated_body: bool,
    pub drop_unusable_json_wrapper: bool,
    pub drop_partial_markup_on_stream_finalize: bool,
    pub recover_trailing_unclosed_call: bool,
}

impl View for JsonParserConfig {
    type V = JsonParserConfigView;

    open spec fn view(&self) -> JsonParserConfigView {
        JsonParserConfigView {
            start_tokens: text::texts(self.tool_call_start_tokens@),
            end_tokens: text::texts(self.tool_call_end_tokens@),
            separator_tokens: text::texts(self.tool_call_separator_tokens@),
            function_name_keys: text::texts(self.function_name_keys@),
            arguments_keys: text::texts(self.arguments_keys@),
            parser_type: self.parser_type,
            bare_json_mode: self.bare_json_mode,
            allow_eof_recovery: self.allow_eof_recovery,
            strip_markup_on_recovery: self.strip_markup_on_recovery,
            preserve_normal_text_whitespace: self.preserve_normal_text_whitespace,
            repair_truncated_body: self.repair_truncated_body,
            drop_unusable_json_wrapper: self.drop_unusable_json_wrapper,
            drop_partial_markup_on_stream_finalize: self.drop_partial_markup_on_stream_finalize,
            recover_trailing_unclosed_call: self.recover_trailing_unclosed_call,
        }
    }
}

/// The default of the switches that are on unless turned off.
fn default_true() -> (r: bool)
    ensures
        r,
{
    true
}

/// The default JSON configuration.
pub open spec fn default_json() -> JsonParserConfigView {
    JsonParserConfigView {
        start_tokens: seq!["<TOOLCALL>"@, "<|python_tag|>"@],
        end_tokens: seq!["</TOOLCALL>"@, ""@],
        separator_tokens: seq![],
        function_name_keys: seq!["name"@],
        arguments_keys: seq!["arguments"@, "parameters"@],
        parser_type: JsonParserType::Basic,
        bare_json_mode: false,
        allow_eof_recovery: false,
        strip_markup_on_recovery: false,
        preserve_normal_text_whitespace: false,
        repair_truncated_body: true,
        drop_unusable_json_wrapper: false,
        drop_partial_markup_on_stream_finalize: false,
        recover_trailing_unclosed_call: false,
    }
}

/// The default JSON configuration with other start and end tokens.
pub open spec fn json_between(
    start_tokens: Seq<Seq<char>>,
    end_tokens: Seq<Seq<char>>,
) -> JsonParserConfigView {
    JsonParserConfigView { start_tokens, end_tokens, ..default_json() }
}

impl Default for JsonParserConfig {
    fn default() -> (r: Self)
        ensures
            r@ == default_json(),
    {
        let r: JsonParserConfig = JsonParserConfig {
            tool_call_start_tokens: text::two("<TOOLCALL>", "<|python_tag|>"),
            tool_call_end_tokens: text::two("</TOOLCALL>", ""),
            tool_call_separator_tokens: Vec::new(),
            function_name_keys: text::one("name"),
            arguments_keys: text::two("arguments", "parameters"),
            parser_type: JsonParserType::Basic,
            bare_json_mode: false,
            allow_eof_recovery: false,
            strip_markup_on_recovery: false,
            preserve_normal_text_whitespace: false,
            repair_truncated_body: default_true(),
            drop_unusable_json_wrapper: false,
            drop_partial_markup_on_stream_finalize: false,
            recover_trailing_unclosed_call: false,
        };
        assert(r@.separator_tokens =~= seq![]);
        r
    }
}

/// Configuration of a format that carries its calls as XML-like tags.
#[derive(Clone, Debug)]
pub struct XmlParserConfig {
    /// Start token of a tool call.
    pub tool_call_start_token: String,
    /// End token of a tool call.
    pub tool_call_end_token: String,
    /// What precedes the name of a function.
    pub function_start_token: String,
    /// End token of a function.
    pub function_end_token: String,
    /// What precedes the name of a parameter.
    pub parameter_start_token: String,
    /// End token of a parameter.
    pub parameter_end_token: String,
    /// As [`JsonParserConfig::allow_eof_recovery`].
    pub allow_eof_recovery: bool,
    /// A function or a parameter without its end token is no match.
    pub strict_match: bool,
    /// Where no function start token occurs, hand the input back as it is.
    pub passthrough_when_no_function: bool,
    /// Where the wrapper is missing but a function occurs, take the whole input as one call block.
    pub backoff_when_no_wrapper: bool,
}

/// What a [`XmlParserConfig`] holds.
pub struct XmlParserConfigView {
    pub tool_call_start_token: Seq<char>,
    pub tool_call_end_token: Seq<char>,
    pub function_start_token: Seq<char>,
    pub function_end_token: Seq<char>,
    pub parameter_start_token: Seq<char>,
    pub parameter_end_token: Seq<char>,
    pub allow_eof_recovery: bool,
    pub strict_match: bool,
    pub passthrough_when_no_function: bool,
    pub backoff_when_no_wrapper: bool,
}

impl View for XmlParserConfig {
    type V = XmlParserConfigView;

    open spec fn view(&self) -> XmlParserConfigView {
        XmlParserConfigView {
            tool_call_start_token: self.tool_call_start_token@,
            tool_call_end_token: self.tool_call_end_token@,
            function_start_token: self.function_start_token@,
            function_end_token: self.function_end_token@,
            parameter_start_token: self.parameter_start_token@,
            parameter_end_token: self.parameter_end_token@,
            allow_eof_recovery: self.allow_eof_recovery,
            strict_match: self.strict_match,
            passthrough_when_no_function: self.passthrough_when_no_function,
            backoff_when_no_wrapper: self.backoff_when_no_wrapper,
        }
    }
}

/// The default xml configuration.
pub open spec fn default_xml() -> XmlParserConfigView {
    XmlParserConfigView {
        tool_call_start_token: "<tool_call>"@,
        tool_call_end_token: "</tool_call>"@,
        function_start_token: "<function="@,
        function_end_token: "</function>"@,
        parameter_start_token: "<parameter="@,
        parameter_end_token: "</parameter>"@,
        allow_eof_recovery: false,
        strict_match: false,
        passthrough_when_no_function: false,
        backoff_when_no_wrapper: false,
    }
}

impl Default for XmlParserConfig {
    fn default() -> (r: Self)
        ensures
            r@ == default_xml(),
    {
        XmlParserConfig {
            tool_call_start_token: "<tool_call>".to_string(),
            tool_call_end_token: "</tool_call>".to_string(),
            function_start_token: "<function=".to_string(),
            function_end_token: "</function>".to_string(),
            parameter_start_token: "<parameter=".to_string(),
            parameter_end_token: "</parameter>".to_string(),
            allow_eof_recovery: false,
            strict_match: false,
            passthrough_when_no_function: false,
            backoff_when_no_wrapper: false,
        }
    }
}

impl XmlParserConfig {
    /// The text lacks the wrapper but holds a function, and the family takes such text as
    /// a call.
    pub open spec fn bare_function(c: XmlParserConfigView, chunk: Seq<char>) -> bool {
        &&& c.backoff_when_no_wrapper
        &&& !text::contains_text(chunk, c.tool_call_start_token)
        &&& text::contains_text(chunk, c.function_start_token)
    }

    /// Whether the function tokens bound the tool call in this chunk, since the wrapper is
    /// missing.
    pub fn is_bare_function_mode(&self, chunk: &str) -> (r: bool)
        ensures
            r == XmlParserConfig::bare_function(self@, chunk@),
    {
        self.backoff_when_no_wrapper && !text::contains(chunk, self.tool_call_start_token.as_str())
            && text::contains(chunk, self.function_start_token.as_str())
    }
}

/// Configuration of the DSML format.
#[derive(Clone, Debug)]
pub struct DsmlParserConfig {
    /// Start token of the block of calls.
    pub block_start: String,
    /// End token of the block of calls.
    pub block_end: String,
    /// What precedes the name of a function.
    pub invoke_start_prefix: String,
    /// End token of a call.
    pub invoke_end: String,
    /// What precedes the name of a parameter.
    pub parameter_prefix: String,
    /// End token of a parameter.
    pub parameter_end: String,
    /// As [`JsonParserConfig::allow_eof_recovery`].
    pub allow_eof_recovery: bool,
}

/// What a [`DsmlParserConfig`] holds.
pub struct DsmlParserConfigView {
    pub block_start: Seq<char>,
    pub block_end: Seq<char>,
    pub invoke_start_prefix: Seq<char>,
    pub invoke_end: Seq<char>,
    pub parameter_prefix: Seq<char>,
    pub parameter_end: Seq<char>,
    pub allow_eof_recovery: bool,
}

impl View for DsmlParserConfig {
    type V = DsmlParserConfigView;

    open spec fn view(&self) -> DsmlParserConfigView {
        DsmlParserConfigView {
            block_start: self.block_start@,
            block_end: self.block_end@,
            invoke_start_prefix: self.invoke_start_prefix@,
            invoke_end: self.invoke_end@,
            parameter_prefix: self.parameter_prefix@,
            parameter_end: self.parameter_end@,
            allow_eof_recovery: self.allow_eof_recovery,
        }
    }
}

/// The default dsml configuration.
pub open spec fn default_dsml() -> DsmlParserConfigView {
    DsmlParserConfigView {
        block_start: "<｜DSML｜function_calls>"@,
        block_end: "</｜DSML｜function_calls>"@,
        invoke_start_prefix: "<｜DSML｜invoke name="@,
        invoke_end: "</｜DSML｜invoke>"@,
        parameter_prefix: "<｜DSML｜parameter name="@,
        parameter_end: "</｜DSML｜parameter>"@,
        allow_eof_recovery: false,
    }
}

impl Default for DsmlParserConfig {
    fn default() -> (r: Self)
        ensures
            r@ == default_dsml(),
    {
        DsmlParserConfig {
            block_start: "<｜DSML｜function_calls>".to_string(),
            block_end: "</｜DSML｜function_calls>".to_string(),
            invoke_start_prefix: "<｜DSML｜invoke name=".to_string(),
            invoke_end: "</｜DSML｜invoke>".to_string(),
            parameter_prefix: "<｜DSML｜parameter name=".to_string(),
            parameter_end: "</｜DSML｜parameter>".to_string(),
            allow_eof_recovery: false,
        }
    }
}

/// Configuration of the GLM-4.7 format, which lists argument keys and values in turn.
#[derive(Clone, Debug)]
pub struct Glm47ParserConfig {
    /// Start token of a tool call.
    pub tool_call_start: String,
    /// End token of a tool call.
    pub tool_call_end: String,
    /// Start token of an argument's key.
    pub arg_key_start: String,
    /// End token of an argument's key.
    pub arg_key_end: String,
    /// Start token of an argument's value.
    pub arg_value_start: String,
    /// End token of an argument's value.
    pub arg_value_end: String,
    /// As [`JsonParserConfig::allow_eof_recovery`].
    pub allow_eof_recovery: bool,
}

/// What a [`Glm47ParserConfig`] holds.
pub struct Glm47ParserConfigView {
    pub tool_call_start: Seq<char>,
    pub tool_call_end: Seq<char>,
    pub arg_key_start: Seq<char>,
    pub arg_key_end: Seq<char>,
    pub arg_value_start: Seq<char>,
    pub arg_value_end: Seq<char>,
    pub allow_eof_recovery: bool,
}

impl View for Glm47ParserConfig {
    type V = Glm47ParserConfigView;

    open spec fn view(&self) -> Glm47ParserConfigView {
        Glm47ParserConfigView {
            tool_call_start: self.tool_call_start@,
            tool_call_end: self.tool_call_end@,
            arg_key_start: self.arg_key_start@,
            arg_key_end: self.arg_key_end@,
            arg_value_start: self.arg_value_start@,
            arg_value_end: self.arg_value_end@,
            allow_eof_recovery: self.allow_eof_recovery,
        }
    }
}

/// The default glm47 configuration.
pub open spec fn default_glm47() -> Glm47ParserConfigView {
    Glm47ParserConfigView {
        tool_call_start: "<tool_call>"@,
        tool_call_end: "</tool_call>"@,
        arg_key_start: "<arg_key>"@,
        arg_key_end: "</arg_key>"@,
        arg_value_start: "<arg_value>"@,
        arg_value_end: "</arg_value>"@,
        allow_eof_recovery: false,
    }
}

impl Default for Glm47ParserConfig {
    fn default() -> (r: Self)
        ensures
            r@ == default_glm47(),
    {
        Glm47ParserConfig {
            tool_call_start: "<tool_call>".to_string(),
            tool_call_end: "</tool_call>".to_string(),
            arg_key_start: "<arg_key>".to_string(),
            arg_key_end: "</arg_key>".to_string(),
            arg_value_start: "<arg_value>".to_string(),
            arg_value_end: "</arg_value>".to_string(),
            allow_eof_recovery: false,
        }
    }
}

/// Configuration of the Kimi K2 format. A model may emit the section tokens in the plural or
/// in the singular; the variants list both.
#[derive(Clone, Debug)]
pub struct KimiK2ParserConfig {
    /// Start token of the section of calls.
    pub section_start: String,
    /// End token of the section of calls.
    pub section_end: String,
    /// All start tokens of the section.
    pub section_start_variants: Vec<String>,
    /// All end tokens of the section.
    pub section_end_variants: Vec<String>,
    /// Start token of one call.
    pub call_start: String,
    /// End token of one call.
    pub call_end: String,
    /// What separates a function's identifier from its JSON arguments.
    pub argument_begin: String,
}

/// What a [`KimiK2ParserConfig`] holds.
pub struct KimiK2ParserConfigView {
    pub section_start: Seq<char>,
    pub section_end: Seq<char>,
    pub section_start_variants: Seq<Seq<char>>,
    pub section_end_variants: Seq<Seq<char>>,
    pub call_start: Seq<char>,
    pub call_end: Seq<char>,
    pub argument_begin: Seq<char>,
}

impl View for KimiK2ParserConfig {
    type V = KimiK2ParserConfigView;

    open spec fn view(&self) -> KimiK2ParserConfigView {
        KimiK2ParserConfigView {
            section_start: self.section_start@,
            section_end: self.section_end@,
            section_start_variants: text::texts(self.section_start_variants@),
            section_end_variants: text::texts(self.section_end_variants@),
            call_start: self.call_start@,
            call_end: self.call_end@,
            argument_begin: self.argument_begin@,
        }
    }
}

/// The default kimi_k2 configuration.
pub open spec fn default_kimi_k2() -> KimiK2ParserConfigView {
    KimiK2ParserConfigView {
        section_start: "<|tool_calls_section_begin|>"@,
        section_end: "<|tool_calls_section_end|>"@,
        section_start_variants: seq![
            "<|tool_calls_section_begin|>"@,
            "<|tool_call_section_begin|>"@,
        ],
        section_end_variants: seq!["<|tool_calls_section_end|>"@, "<|tool_call_section_end|>"@],
        call_start: "<|tool_call_begin|>"@,
        call_end: "<|tool_call_end|>"@,
        argument_begin: "<|tool_call_argument_begin|>"@,
    }
}

impl Default for KimiK2ParserConfig {
    fn default() -> (r: Self)
        ensures
            r@ == default_kimi_k2(),
    {
        KimiK2ParserConfig {
            section_start: "<|tool_calls_section_begin|>".to_string(),
            section_end: "<|tool_calls_section_end|>".to_string(),
            section_start_variants: text::two(
                "<|tool_calls_section_begin|>",
                "<|tool_call_section_begin|>",
            ),
            section_end_variants: text::two(
                "<|tool_calls_section_end|>",
                "<|tool_call_section_end|>",
            ),
            call_start: "<|tool_call_begin|>".to_string(),
            call_end: "<|tool_call_end|>".to_string(),
            argument_begin: "<|tool_call_argument_begin|>".to_string(),
        }
    }
}

/// The start token of a Gemma 4 tool call.
pub const GEMMA4_TOOL_CALL_START: &'static str = "<|tool_call>";

/// The end token of a Gemma 4 tool call.
pub const GEMMA4_TOOL_CALL_END: &'static str = "<tool_call|>";

/// Configuration of one parser.
#[derive(Clone, Debug)]
pub enum ParserConfig {
    Json(JsonParserConfig),
    Xml(XmlParserConfig),
    Pythonic,
    Harmony(JsonParserConfig),
    Typescript,
    Dsml(DsmlParserConfig),
    KimiK2(KimiK2ParserConfig),
    Glm47(Glm47ParserConfig),
    /// A grammar of its own, with markers that cannot be tuned.
    Gemma4,
}

/// What a [`ParserConfig`] holds.
pub enum ParserConfigView {
    Json(JsonParserConfigView),
    Xml(XmlParserConfigView),
    Pythonic,
    Harmony(JsonParserConfigView),
    Typescript,
    Dsml(DsmlParserConfigView),
    KimiK2(KimiK2ParserConfigView),
    Glm47(Glm47ParserConfigView),
    Gemma4,
}

impl View for ParserConfig {
    type V = ParserConfigView;

    open spec fn view(&self) -> ParserConfigView {
        match self {
            ParserConfig::Json(c) => ParserConfigView::Json(c@),
            ParserConfig::Xml(c) => ParserConfigView::Xml(c@),
            ParserConfig::Pythonic => ParserConfigView::Pythonic,
            ParserConfig::Harmony(c) => ParserConfigView::Harmony(c@),
            ParserConfig::Typescript => ParserConfigView::Typescript,
            ParserConfig::Dsml(c) => ParserConfigView::Dsml(c@),
            ParserConfig::KimiK2(c) => ParserConfigView::KimiK2(c@),
            ParserConfig::Glm47(c) => ParserConfigView::Glm47(c@),
            ParserConfig::Gemma4 => ParserConfigView::Gemma4,
        }
    }
}

/// The tokens that announce a tool call in the format.
pub open spec fn start_tokens_of(c: ParserConfigView) -> Seq<Seq<char>> {
    match c {
        ParserConfigView::Json(j) => j.start_tokens,
        ParserConfigView::Harmony(j) => j.start_tokens,
        ParserConfigView::Xml(x) => if x.backoff_when_no_wrapper {
            seq![x.tool_call_start_token, x.function_start_token]
        } else {
            seq![x.tool_call_start_token]
        },
        ParserConfigView::Pythonic => seq![],
        ParserConfigView::Typescript => seq![],
        ParserConfigView::Dsml(d) => seq![d.block_start, d.invoke_start_prefix],
        ParserConfigView::Glm47(g) => seq![g.tool_call_start],
        ParserConfigView::KimiK2(k) => k.section_start_variants.push(k.call_start),
        ParserConfigView::Gemma4 => seq![GEMMA4_TOOL_CALL_START@],
    }
}

/// The tokens that close a tool call in the format.
pub open spec fn end_tokens_of(c: ParserConfigView) -> Seq<Seq<char>> {
    match c {
        ParserConfigView::Json(j) => j.end_tokens,
        ParserConfigView::Harmony(j) => j.end_tokens,
        ParserConfigView::Xml(x) => seq![x.tool_call_end_token],
        ParserConfigView::Pythonic => seq![],
        ParserConfigView::Typescript => seq![],
        ParserConfigView::Dsml(d) => seq![d.block_end],
        ParserConfigView::Glm47(g) => seq![g.tool_call_end],
        ParserConfigView::KimiK2(k) => k.section_end_variants,
        ParserConfigView::Gemma4 => seq![GEMMA4_TOOL_CALL_END@],
    }
}

impl ParserConfig {
    /// The tokens that announce a tool call.
    pub fn tool_call_start_tokens(&self) -> (r: Vec<String>)
        ensures
            text::texts(r@) == start_tokens_of(self@),
    {
        match self {
            ParserConfig::Json(config) => text::copy_all(&config.tool_call_start_tokens),
            ParserConfig::Harmony(config) => text::copy_all(&config.tool_call_start_tokens),
            ParserConfig::Xml(config) => {
                if config.backoff_when_no_wrapper {
                    text::two(
                        config.tool_call_start_token.as_str(),
                        config.function_start_token.as_str(),
                    )
                } else {
                    text::one(config.tool_call_start_token.as_str())
                }
            },
            ParserConfig::Pythonic => text::none(),
            ParserConfig::Typescript => text::none(),
            ParserConfig::Dsml(config) => text::two(
                config.block_start.as_str(),
                config.invoke_start_prefix.as_str(),
            ),
            ParserConfig::Glm47(config) => text::one(config.tool_call_start.as_str()),
            ParserConfig::KimiK2(config) => {
                let mut tokens: Vec<String> = text::copy_all(&config.section_start_variants);
                let ghost before = tokens@;
                tokens.push(config.call_start.clone());
                assert(text::texts(tokens@) =~= text::texts(before).push(config.call_start@));
                tokens
            },
            ParserConfig::Gemma4 => text::one(GEMMA4_TOOL_CALL_START),
        }
    }

    /// The tokens that close a tool call.
    pub fn tool_call_end_tokens(&self) -> (r: Vec<String>)
        ensures
            text::texts(r@) == end_tokens_of(self@),
    {
        match self {
            ParserConfig::Json(config) => text::copy_all(&config.tool_call_end_tokens),
            ParserConfig::Harmony(config) => text::copy_all(&config.tool_call_end_tokens),
            ParserConfig::Xml(config) => text::one(config.tool_call_end_token.as_str()),
            ParserConfig::Pythonic => text::none(),
            ParserConfig::Typescript => text::none(),
            ParserConfig::Dsml(config) => text::one(config.block_end.as_str()),
            ParserConfig::Glm47(config) => text::one(config.tool_call_end.as_str()),
            ParserConfig::KimiK2(config) => text::copy_all(&config.section_end_variants),
            ParserConfig::Gemma4 => text::one(GEMMA4_TOOL_CALL_END),
        }
    }
}

/// Configuration of a family: how to parse its calls and how to constrain a model to emit
/// them.
#[derive(Clone, Debug)]
pub struct ToolCallConfig {
    pub parser_config: ParserConfig,
    /// Builder of the tags that constrain a backend to the family's own format.
    pub structural_tag_builder: Option<StructuralTagBuilder>,
}

/// What a [`ToolCallConfig`] holds.
pub struct ToolCallConfigView {
    pub parser_config: ParserConfigView,
    pub structural_tag_builder: Option<structural_tag::StructuralTagBuilderView>,
}

impl View for ToolCallConfig {
    type V = ToolCallConfigView;

    open spec fn view(&self) -> ToolCallConfigView {
        ToolCallConfigView {
            parser_config: self.parser_config@,
            structural_tag_builder: match self.structural_tag_builder {
                Some(b) => Some(b@),
                None => None,
            },
        }
    }
}

/// A family with a parser and no structural tags.
pub open spec fn untagged(parser_config: ParserConfigView) -> ToolCallConfigView {
    ToolCallConfigView { parser_config, structural_tag_builder: None }
}

/// A family that is parsed as JSON between tokens, with no structural tags.
pub open spec fn untagged_json(
    start_tokens: Seq<Seq<char>>,
    end_tokens: Seq<Seq<char>>,
) -> ToolCallConfigView {
    untagged(ParserConfigView::Json(json_between(start_tokens, end_tokens)))
}

impl Default for ToolCallConfig {
    fn default() -> (r: Self)
        ensures
            r@ == untagged(ParserConfigView::Json(default_json())),
    {
        ToolCallConfig {
            parser_config: ParserConfig::Json(JsonParserConfig::default()),
            structural_tag_builder: None,
        }
    }
}

/// The default JSON configuration with other start and end tokens.
fn json_with_tokens(start_tokens: Vec<String>, end_tokens: Vec<String>) -> (r: JsonParserConfig)
    ensures
        r@ == json_between(text::texts(start_tokens@), text::texts(end_tokens@)),
{
    let mut config: JsonParserConfig = JsonParserConfig::default();
    config.tool_call_start_tokens = start_tokens;
    config.tool_call_end_tokens = end_tokens;
    config
}

/// A family that is parsed as JSON, with no structural tags.
fn untagged_json_family(config: JsonParserConfig) -> (r: ToolCallConfig)
    ensures
        r@ == untagged(ParserConfigView::Json(config@)),
{
    ToolCallConfig { parser_config: ParserConfig::Json(config), structural_tag_builder: None }
}

/// The DSML family whose block of calls has the given name.
pub open spec fn dsml_family(block_name: Seq<char>) -> ToolCallConfigView {
    let config = DsmlParserConfigView {
        block_start: "<｜DSML｜"@ + block_name + ">"@,
        block_end: "</｜DSML｜"@ + block_name + ">"@,
        ..default_dsml()
    };
    ToolCallConfigView {
        parser_config: ParserConfigView::Dsml(config),
        structural_tag_builder: Some(
            structural_tag::StructuralTagBuilderView::DsmlToolCalls(
                structural_tag::DsmlToolCallsConfigView {
                    trigger: config.block_start,
                    block_begin: config.block_start + "\n"@,
                    block_end: config.block_end,
                    invoke_begin_template: config.invoke_start_prefix + "\""@
                        + TOOL_NAME_PLACEHOLDER@ + "\">\n"@,
                    invoke_end: config.invoke_end + "\n"@,
                    separator: ""@,
                    tool_call_ban_tokens: seq!["｜DSML｜"@],
                    reasoning_end: Some("</think>"@),
                },
            ),
        ),
    }
}

impl ToolCallConfig {
    /// The Hermes family: `<tool_call>{"name": ..., "arguments": ...}</tool_call>`. It keeps
    /// the narration before a call, drops what is no usable call, does not repair a
    /// truncated body, and recovers a last call that is not closed.
    pub fn hermes() -> (r: Self)
        ensures
            r@ == (ToolCallConfigView {
                parser_config: ParserConfigView::Json(
                    JsonParserConfigView {
                        preserve_normal_text_whitespace: true,
                        repair_truncated_body: false,
                        drop_unusable_json_wrapper: true,
                        drop_partial_markup_on_stream_finalize: true,
                        recover_trailing_unclosed_call: true,
                        ..json_between(seq!["<tool_call>"@], seq!["</tool_call>"@])
                    },
                ),
                structural_tag_builder: Some(
                    structural_tag::StructuralTagBuilderView::TriggeredTags(
                        structural_tag::TriggeredTagsConfigView {
                            begin_template: "<tool_call>\n{\"name\": \""@
                                + TOOL_NAME_PLACEHOLDER@ + "\", \"arguments\": "@,
                            end_template: "}\n</tool_call>"@,
                            triggers: seq!["<tool_call>"@],
                            content_style: JsonSchemaStyle::Json,
                            tool_call_ban_tokens: seq!["<tool_call>"@],
                            reasoning_end: Some("</think>"@),
                        },
                    ),
                ),
            }),
    {
        let mut config: JsonParserConfig = json_with_tokens(
            text::one("<tool_call>"),
            text::one("</tool_call>"),
        );
        config.preserve_normal_text_whitespace = true;
        config.repair_truncated_body = false;
        config.drop_unusable_json_wrapper = true;
        config.drop_partial_markup_on_stream_finalize = true;
        config.recover_trailing_unclosed_call = true;
        let mut begin_template: String = "<tool_call>\n{\"name\": \"".to_string();
        begin_template.append(TOOL_NAME_PLACEHOLDER);
        begin_template.append("\", \"arguments\": ");
        ToolCallConfig {
            parser_config: ParserConfig::Json(config),
            structural_tag_builder: Some(
                StructuralTagBuilder::TriggeredTags(
                    TriggeredTagsConfig {
                        begin_template,
                        end_template: "}\n</tool_call>".to_string(),
                        triggers: text::one("<tool_call>"),
                        content_style: JsonSchemaStyle::Json,
                        tool_call_ban_tokens: text::one("<tool_call>"),
                        reasoning_end: Some("</think>".to_string()),
                    },
                ),
            ),
        }
    }

    /// The Nemotron Deci family: `<TOOLCALL>[...]</TOOLCALL>`. It never lets the markers
    /// into the normal text.
    pub fn nemotron_deci() -> (r: Self)
        ensures
            r@ == untagged(
                ParserConfigView::Json(
                    JsonParserConfigView {
                        strip_markup_on_recovery: true,
                        ..json_between(seq!["<TOOLCALL>"@], seq!["</TOOLCALL>"@])
                    },
                ),
            ),
    {
        let mut config: JsonParserConfig = json_with_tokens(
            text::one("<TOOLCALL>"),
            text::one("</TOOLCALL>"),
        );
        config.strip_markup_on_recovery = true;
        untagged_json_family(config)
    }

    /// The Llama 3 family: `<|python_tag|>{...}`, or the object alone.
    pub fn llama3_json() -> (r: Self)
        ensures
            r@ == untagged_json(seq!["<|python_tag|>"@], seq![""@]),
    {
        untagged_json_family(json_with_tokens(text::one("<|python_tag|>"), text::one("")))
    }

    /// The Mistral family: `[TOOL_CALLS][...]`, closed by `[/TOOL_CALLS]` or not at all.
    pub fn mistral() -> (r: Self)
        ensures
            r@ == untagged_json(seq!["[TOOL_CALLS]"@], seq!["[/TOOL_CALLS]"@, ""@]),
    {
        untagged_json_family(
            json_with_tokens(text::one("[TOOL_CALLS]"), text::two("[/TOOL_CALLS]", "")),
        )
    }

    /// The Phi-4 family: `functools[...]`.
    pub fn phi4() -> (r: Self)
        ensures
            r@ == untagged_json(seq!["functools"@], seq![""@]),
    {
        untagged_json_family(json_with_tokens(text::one("functools"), text::one("")))
    }

    /// Families that emit calls as Python expressions.
    pub fn pythonic() -> (r: Self)
        ensures
            r@ == untagged(ParserConfigView::Pythonic),
    {
        ToolCallConfig { parser_config: ParserConfig::Pythonic, structural_tag_builder: None }
    }

    /// The Harmony family, whose calls stand in the commentary channel.
    pub fn harmony() -> (r: Self)
        ensures
            r@ == untagged(
                ParserConfigView::Harmony(
                    json_between(
                        seq![
                            "<|start|>assistant<|channel|>commentary"@,
                            "<|channel|>commentary"@,
                        ],
                        seq!["<|call|>"@],
                    ),
                ),
            ),
    {
        let config: JsonParserConfig = json_with_tokens(
            text::two("<|start|>assistant<|channel|>commentary", "<|channel|>commentary"),
            text::one("<|call|>"),
        );
        ToolCallConfig {
            parser_config: ParserConfig::Harmony(config),
            structural_tag_builder: None,
        }
    }

    /// The DeepSeek V3.1 family. The tokens wrap the whole block of calls, so that a parser
    /// consumes all of it.
    pub fn deepseek_v3_1() -> (r: Self)
        ensures
            r@ == untagged(
                ParserConfigView::Json(
                    JsonParserConfigView {
                        separator_tokens: seq!["<｜tool▁sep｜>"@],
                        parser_type: JsonParserType::DeepseekV31,
                        ..json_between(
                            seq!["<｜tool▁calls▁begin｜>"@],
                            seq!["<｜tool▁calls▁end｜>"@],
                        )
                    },
                ),
            ),
    {
        let mut config: JsonParserConfig = json_with_tokens(
            text::one("<｜tool▁calls▁begin｜>"),
            text::one("<｜tool▁calls▁end｜>"),
        );
        config.tool_call_separator_tokens = text::one("<｜tool▁sep｜>");
        config.parser_type = JsonParserType::DeepseekV31;
        untagged_json_family(config)
    }

    /// The DeepSeek V3 family, which shares its tokens with V3.1 and differs in its
    /// dialect.
    pub fn deepseek_v3() -> (r: Self)
        ensures
            r@ == untagged(
                ParserConfigView::Json(
                    JsonParserConfigView {
                        separator_tokens: seq!["<｜tool▁sep｜>"@],
                        parser_type: JsonParserType::DeepseekV3,
                        ..json_between(
                            seq!["<｜tool▁calls▁begin｜>"@],
                            seq!["<｜tool▁calls▁end｜>"@],
                        )
                    },
                ),
            ),
    {
        let mut config: JsonParserConfig = json_with_tokens(
            text::one("<｜tool▁calls▁begin｜>"),
            text::one("<｜tool▁calls▁end｜>"),
        );
        config.tool_call_separator_tokens = text::one("<｜tool▁sep｜>");
        config.parser_type = JsonParserType::DeepseekV3;
        untagged_json_family(config)
    }

    /// The Qwen3-Coder family: `<tool_call><function=name>...</function></tool_call>`. Text
    /// without a function passes through; a function without the wrapper is still a call.
    pub fn qwen3_coder() -> (r: Self)
        ensures
            r@ == (ToolCallConfigView {
                parser_config: ParserConfigView::Xml(
                    XmlParserConfigView {
                        passthrough_when_no_function: true,
                        backoff_when_no_wrapper: true,
                        ..default_xml()
                    },
                ),
                structural_tag_builder: Some(
                    structural_tag::StructuralTagBuilderView::TriggeredTags(
                        structural_tag::TriggeredTagsConfigView {
                            begin_template: "<tool_call>\n<function="@ + TOOL_NAME_PLACEHOLDER@
                                + ">\n"@,
                            end_template: "\n</function>\n</tool_call>"@,
                            triggers: seq!["<tool_call>\n<function="@],
                            content_style: JsonSchemaStyle::QwenXml,
                            tool_call_ban_tokens: seq!["<tool_call>"@],
                            reasoning_end: Some("</think>"@),
                        },
                    ),
                ),
            }),
    {
        let mut config: XmlParserConfig = XmlParserConfig::default();
        config.passthrough_when_no_function = true;
        config.backoff_when_no_wrapper = true;
        let mut begin_template: String = "<tool_call>\n<function=".to_string();
        begin_template.append(TOOL_NAME_PLACEHOLDER);
        begin_template.append(">\n");
        ToolCallConfig {
            parser_config: ParserConfig::Xml(config),
            structural_tag_builder: Some(
                StructuralTagBuilder::TriggeredTags(
                    TriggeredTagsConfig {
                        begin_template,
                        end_template: "\n</function>\n</tool_call>".to_string(),
                        triggers: text::one("<tool_call>\n<function="),
                        content_style: JsonSchemaStyle::QwenXml,
                        tool_call_ban_tokens: text::one("<tool_call>"),
                        reasoning_end: Some("</think>".to_string()),
                    },
                ),
            ),
        }
    }

    /// The Jamba family: `<tool_calls>[...]</tool_calls>`.
    pub fn jamba() -> (r: Self)
        ensures
            r@ == untagged_json(seq!["<tool_calls>"@], seq!["</tool_calls>"@]),
    {
        untagged_json_family(
            json_with_tokens(text::one("<tool_calls>"), text::one("</tool_calls>")),
        )
    }

    /// A DSML family. The newline stands in the end of a call and the separator is empty,
    /// so that a model can go on with another call or close the block. The opening of the
    /// block is several tokens, of which only the `｜DSML｜` token can be banned.
    fn deepseek_dsml(block_name: &str) -> (r: Self)
        ensures
            r@ == dsml_family(block_name@),
    {
        let mut config: DsmlParserConfig = DsmlParserConfig::default();
        let mut block_start: String = "<｜DSML｜".to_string();
        block_start.append(block_name);
        block_start.append(">");
        let mut block_end: String = "</｜DSML｜".to_string();
        block_end.append(block_name);
        block_end.append(">");
        config.block_start = block_start;
        config.block_end = block_end;
        let mut block_begin: String = config.block_start.clone();
        block_begin.append("\n");
        let mut invoke_begin_template: String = config.invoke_start_prefix.clone();
        invoke_begin_template.append("\"");
        invoke_begin_template.append(TOOL_NAME_PLACEHOLDER);
        invoke_begin_template.append("\">\n");
        let mut invoke_end: String = config.invoke_end.clone();
        invoke_end.append("\n");
        let builder: StructuralTagBuilder = StructuralTagBuilder::DsmlToolCalls(
            DsmlToolCallsConfig {
                trigger: config.block_start.clone(),
                block_begin,
                block_end: config.block_end.clone(),
                invoke_begin_template,
                invoke_end,
                separator: "".to_string(),
                tool_call_ban_tokens: text::one("｜DSML｜"),
                reasoning_end: Some("</think>".to_string()),
            },
        );
        ToolCallConfig {
            parser_config: ParserConfig::Dsml(config),
            structural_tag_builder: Some(builder),
        }
    }

    /// The DeepSeek V3.2 family: DSML with a `function_calls` block.
    pub fn deepseek_v3_2() -> (r: Self)
        ensures
            r@ == dsml_family("function_calls"@),
    {
        Self::deepseek_dsml("function_calls")
    }

    /// The DeepSeek V4 family: DSML with a `tool_calls` block.
    pub fn deepseek_v4() -> (r: Self)
        ensures
            r@ == dsml_family("tool_calls"@),
    {
        Self::deepseek_dsml("tool_calls")
    }

    /// The MiniMax M2 family: strict fences inside, with a wrapper that may be missing.
    pub fn minimax_m2() -> (r: Self)
        ensures
            r@ == untagged(
                ParserConfigView::Xml(
                    XmlParserConfigView {
                        tool_call_start_token: "<minimax:tool_call>"@,
                        tool_call_end_token: "</minimax:tool_call>"@,
                        function_start_token: "<invoke name="@,
                        function_end_token: "</invoke>"@,
                        parameter_start_token: "<parameter name="@,
                        parameter_end_token: "</parameter>"@,
                        allow_eof_recovery: false,
                        strict_match: true,
                        passthrough_when_no_function: false,
                        backoff_when_no_wrapper: true,
                    },
                ),
            ),
    {
        ToolCallConfig {
            parser_config: ParserConfig::Xml(
                XmlParserConfig {
                    tool_call_start_token: "<minimax:tool_call>".to_string(),
                    tool_call_end_token: "</minimax:tool_call>".to_string(),
                    function_start_token: "<invoke name=".to_string(),
                    function_end_token: "</invoke>".to_string(),
                    parameter_start_token: "<parameter name=".to_string(),
                    parameter_end_token: "</parameter>".to_string(),
                    allow_eof_recovery: false,
                    strict_match: true,
                    passthrough_when_no_function: false,
                    backoff_when_no_wrapper: true,
                },
            ),
            structural_tag_builder: None,
        }
    }

    /// The GLM-4.7 family.
    pub fn glm47() -> (r: Self)
        ensures
            r@ == untagged(ParserConfigView::Glm47(default_glm47())),
    {
        ToolCallConfig {
            parser_config: ParserConfig::Glm47(Glm47ParserConfig::default()),
            structural_tag_builder: None,
        }
    }

    /// The Kimi K2 family.
    pub fn kimi_k2() -> (r: Self)
        ensures
            r@ == untagged(ParserConfigView::KimiK2(default_kimi_k2())),
    {
        ToolCallConfig {
            parser_config: ParserConfig::KimiK2(KimiK2ParserConfig::default()),
            structural_tag_builder: None,
        }
    }

    /// The Gemma 4 family: `<|tool_call>call:name{...}<tool_call|>`, with bare keys and
    /// delimited strings.
    pub fn gemma4() -> (r: Self)
        ensures
            r@ == untagged(ParserConfigView::Gemma4),
    {
        ToolCallConfig { parser_config: ParserConfig::Gemma4, structural_tag_builder: None }
    }
}

/// The trigger of a DSML family's tags is the token that opens its block, and the tags close
/// the block with the token that the parser looks for.
pub proof fn law_dsml_tags_match_the_parser(block_name: Seq<char>)
    ensures
        ({
            let family = dsml_family(block_name);
            &&& family.structural_tag_builder matches Some(
                structural_tag::StructuralTagBuilderView::DsmlToolCalls(tags),
            )
            &&& start_tokens_of(family.parser_config)[0] == tags.trigger
            &&& end_tokens_of(family.parser_config) == seq![tags.block_end]
        }),
{
}

/// A family between other tokens has those tokens, and for the rest the defaults.
pub proof fn law_other_tokens_change_nothing_else(
    start_tokens: Seq<Seq<char>>,
    end_tokens: Seq<Seq<char>>,
)
    ensures
        ({
            let c = json_between(start_tokens, end_tokens);
            &&& c.start_tokens == start_tokens
            &&& c.end_tokens == end_tokens
            &&& c.separator_tokens.len() == 0
            &&& c.function_name_keys == seq!["name"@]
            &&& c.arguments_keys == seq!["arguments"@, "parameters"@]
            &&& c.parser_type is Basic
            &&& c.repair_truncated_body
            &&& !c.bare_json_mode
            &&& !c.allow_eof_recovery
            &&& !c.strip_markup_on_recovery
            &&& !c.preserve_normal_text_whitespace
            &&& !c.drop_unusable_json_wrapper
            &&& !c.drop_partial_markup_on_stream_finalize
            &&& !c.recover_trailing_unclosed_call
            &&& untagged_json(start_tokens, end_tokens).parser_config == ParserConfigView::Json(c)
            &&& untagged_json(start_tokens, end_tokens).structural_tag_builder is None
        }),
{
}

/// The tokens that announce a call are those that the format looks for: of a JSON or Harmony
/// format its start tokens, of an XML format that of the wrapper and, where the wrapper may be
/// missing, that of a function, of DSML those of the block and of a call, of Kimi K2 all variants
/// of the section and that of a call. A format without tokens has none.
pub proof fn law_start_tokens_are_those_of_the_format(
    j: JsonParserConfigView,
    x: XmlParserConfigView,
    d: DsmlParserConfigView,
    g: Glm47ParserConfigView,
    k: KimiK2ParserConfigView,
)
    ensures
        start_tokens_of(ParserConfigView::Json(j)) == j.start_tokens,
        start_tokens_of(ParserConfigView::Harmony(j)) == j.start_tokens,
        start_tokens_of(ParserConfigView::Xml(x))[0] == x.tool_call_start_token,
        x.backoff_when_no_wrapper ==> start_tokens_of(ParserConfigView::Xml(x)).len() == 2
            && start_tokens_of(ParserConfigView::Xml(x))[1] == x.function_start_token,
        !x.backoff_when_no_wrapper ==> start_tokens_of(ParserConfigView::Xml(x)).len() == 1,
        start_tokens_of(ParserConfigView::Dsml(d)) == seq![d.block_start, d.invoke_start_prefix],
        start_tokens_of(ParserConfigView::Glm47(g)) == seq![g.tool_call_start],
        forall|i: int|
            0 <= i < k.section_start_variants.len() ==> #[trigger] start_tokens_of(
                ParserConfigView::KimiK2(k),
            )[i] == k.section_start_variants[i],
        start_tokens_of(ParserConfigView::KimiK2(k)).len() == k.section_start_variants.len() + 1,
        start_tokens_of(ParserConfigView::KimiK2(k))[k.section_start_variants.len() as int]
            == k.call_start,
        start_tokens_of(ParserConfigView::Pythonic).len() == 0,
        start_tokens_of(ParserConfigView::Typescript).len() == 0,
        start_tokens_of(ParserConfigView::Gemma4) == seq!["<|tool_call>"@],
{
}

/// The tokens that close a call are those that the format looks for.
pub proof fn law_end_tokens_are_those_of_the_format(
    j: JsonParserConfigView,
    x: XmlParserConfigView,
    d: DsmlParserConfigView,
    g: Glm47ParserConfigView,
    k: KimiK2ParserConfigView,
)
    ensures
        end_tokens_of(ParserConfigView::Json(j)) == j.end_tokens,
        end_tokens_of(ParserConfigView::Harmony(j)) == j.end_tokens,
        end_tokens_of(ParserConfigView::Xml(x)) == seq![x.tool_call_end_token],
        end_tokens_of(ParserConfigView::Dsml(d)) == seq![d.block_end],
        end_tokens_of(ParserConfigView::Glm47(g)) == seq![g.tool_call_end],
        end_tokens_of(ParserConfigView::KimiK2(k)) == k.section_end_variants,
        end_tokens_of(ParserConfigView::Pythonic).len() == 0,
        end_tokens_of(ParserConfigView::Typescript).len() == 0,
        end_tokens_of(ParserConfigView::Gemma4) == seq!["<tool_call|>"@],
{
}

/// The function tokens bound a call exactly where the family allows the wrapper to be missing,
/// the wrapper is missing, and a function stands in the text. Then one of the tokens that
/// announce a call stands in it.
pub proof fn law_bare_function_is_announced(c: XmlParserConfigView, chunk: Seq<char>)
    ensures
        XmlParserConfig::bare_function(c, chunk) <==> c.backoff_when_no_wrapper
            && !text::contains_text(chunk, c.tool_call_start_token) && text::contains_text(
            chunk,
            c.function_start_token,
        ),
        XmlParserConfig::bare_function(c, chunk) ==> exists|i: int|
            0 <= i < start_tokens_of(ParserConfigView::Xml(c)).len() && text::contains_text(
                chunk,
                #[trigger] start_tokens_of(ParserConfigView::Xml(c))[i],
            ),
{
    if XmlParserConfig::bare_function(c, chunk) {
        let tokens = start_tokens_of(ParserConfigView::Xml(c));
        assert(tokens[1] == c.function_start_token);
    }
}

/// The block of a DSML family is named in its tokens, and its tags open the block with a newline
/// and each call with the name of the tool in quotes. All else is as in the default format.
pub proof fn law_dsml_block_is_named_in_its_tokens(block_name: Seq<char>)
    ensures
        ({
            let family = dsml_family(block_name);
            &&& family.parser_config matches ParserConfigView::Dsml(d)
            &&& d.block_start == "<｜DSML｜"@ + block_name + ">"@
            &&& d.block_end == "</｜DSML｜"@ + block_name + ">"@
            &&& d.invoke_start_prefix == default_dsml().invoke_start_prefix
            &&& d.invoke_end == default_dsml().invoke_end
            &&& d.parameter_prefix == default_dsml().parameter_prefix
            &&& d.parameter_end == default_dsml().parameter_end
            &&& !d.allow_eof_recovery
            &&& family.structural_tag_builder matches Some(
                structural_tag::StructuralTagBuilderView::DsmlToolCalls(tags),
            )
            &&& tags.block_begin == d.block_start + "\n"@
            &&& tags.invoke_end == d.invoke_end + "\n"@
            &&& tags.invoke_begin_template == d.invoke_start_prefix + "\""@ + "{tool_name}"@
                + "\">\n"@
            &&& tags.separator == ""@
            &&& tags.tool_call_ban_tokens == seq!["｜DSML｜"@]
            &&& tags.reasoning_end == Some("</think>"@)
        }),
{
}

} // verus!
