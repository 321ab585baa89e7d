//! Templates from which the tags are built that constrain a model to a family's format.

use vstd::prelude::*;

use crate::text;

verus! {

/// What stands in a template where the name of a tool goes.
pub const TOOL_NAME_PLACEHOLDER: &'static str = "{tool_name}";

/// The style in which a tag describes the arguments of a call.
#[derive(Clone, Copy, Debug, PartialEq, Eq, Structural)]
pub enum JsonSchemaStyle {
    Json,
    QwenXml,
}

/// Tags that a trigger opens.
#[derive(Clone, Debug)]
pub struct TriggeredTagsConfig {
    pub begin_template: String,
    pub end_template: String,
    pub triggers: Vec<String>,
    pub content_style: JsonSchemaStyle,
    pub tool_call_ban_tokens: Vec<String>,
    pub reasoning_end: Option<String>,
}

/// Tags of a block of DSML calls.
#[derive(Clone, Debug)]
pub struct DsmlToolCallsConfig {
    pub trigger: String,
    pub block_begin: String,
    pub block_end: String,
    pub invoke_begin_template: String,
    pub invoke_end: String,
    pub separator: String,
    pub tool_call_ban_tokens: Vec<String>,
    pub reasoning_end: Option<String>,
}

/// Builder of structural tags.
#[derive(Clone, Debug)]
pub enum StructuralTagBuilder {
    TriggeredTags(TriggeredTagsConfig),
    DsmlToolCalls(DsmlToolCallsConfig),
}

/// What a [`TriggeredTagsConfig`] holds.
pub struct TriggeredTagsConfigView {
    pub begin_template: Seq<char>,
    pub end_template: Seq<char>,
    pub triggers: Seq<Seq<char>>,
    pub content_style: JsonSchemaStyle,
    pub tool_call_ban_tokens: Seq<Seq<char>>,
    pub reasoning_end: Option<Seq<char>>,
}

/// What a [`DsmlToolCallsConfig`] holds.
pub struct DsmlToolCallsConfigView {
    pub trigger: Seq<char>,
    pub block_begin: Seq<char>,
    pub block_end: Seq<char>,
    pub invoke_begin_template: Seq<char>,
    pub invoke_end: Seq<char>,
    pub separator: Seq<char>,
    pub tool_call_ban_tokens: Seq<Seq<char>>,
    pub reasoning_end: Option<Seq<char>>,
}

/// What a [`StructuralTagBuilder`] holds.
pub enum StructuralTagBuilderView {
    TriggeredTags(TriggeredTagsConfigView),
    DsmlToolCalls(DsmlToolCallsConfigView),
}

impl View for StructuralTagBuilder {
    type V = StructuralTagBuilderView;

    open spec fn view(&self) -> StructuralTagBuilderView {
        match self {
            StructuralTagBuilder::TriggeredTags(c) => StructuralTagBuilderView::TriggeredTags(
                TriggeredTagsConfigView {
                    begin_template: c.begin_template@,
                    end_template: c.end_template@,
                    triggers: text::texts(c.triggers@),
                    content_style: c.content_style,
                    tool_call_ban_tokens: text::texts(c.tool_call_ban_tokens@),
                    reasoning_end: text::text_of(c.reasoning_end),
                },
            ),
            StructuralTagBuilder::DsmlToolCalls(c) => StructuralTagBuilderView::DsmlToolCalls(
                DsmlToolCallsConfigView {
                    trigger: c.trigger@,
                    block_begin: c.block_begin@,
                    block_end: c.block_end@,
                    invoke_begin_template: c.invoke_begin_template@,
                    invoke_end: c.invoke_end@,
                    separator: c.separator@,
                    tool_call_ban_tokens: text::texts(c.tool_call_ban_tokens@),
                    reasoning_end: text::text_of(c.reasoning_end),
                },
            ),
        }
    }
}

} // verus!
