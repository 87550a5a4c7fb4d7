//! What is written to the diagnostics log about a tool call.

use crate::cache::{tag_word, PrepCacheTag};
use crate::evaluate::EvalResponse;
use crate::load_order::LoadOrderReadResponse;
use crate::plugin_query::PluginMetadataResponse;
use crate::text::{copy_opt, opt_text};
use vstd::prelude::*;

verus! {

/// A tool whose calls are logged.
#[derive(Debug, Clone, Copy, PartialEq, Eq, Structural)]
pub enum Tool {
    Evaluate,
    LoadOrder,
    PluginMetadata,
}

/// The name of a tool.
pub open spec fn tool_name(t: Tool) -> Seq<char> {
    match t {
        Tool::Evaluate => "loot_evaluate"@,
        Tool::LoadOrder => "loot_load_order"@,
        Tool::PluginMetadata => "loot_plugin_metadata"@,
    }
}

impl Tool {
    /// The name of this tool.
    pub fn name(&self) -> (r: String)
        ensures
            r@ == tool_name(*self),
    {
        match self {
            Tool::Evaluate => "loot_evaluate".to_owned(),
            Tool::LoadOrder => "loot_load_order".to_owned(),
            Tool::PluginMetadata => "loot_plugin_metadata".to_owned(),
        }
    }
}

/// How a tool call came by its prepared game, in a record.
#[derive(Debug)]
pub enum PrepCacheField {
    /// The tool needs no prepared game, and its records have no such field.
    Left,
    Written(String),
}

/// What a record says of the answer.
#[derive(Debug)]
pub enum EndDetail {
    Error(String),
    PluginCount(usize),
    LoadOrder { plugin_count: usize, source: Option<String> },
    PluginsReturned(usize),
}

/// The record of the end of a tool call; the times are added when it is written.
#[derive(Debug)]
pub struct EndRecord {
    pub tool: Tool,
    pub ok: bool,
    pub prep_cache: PrepCacheField,
    pub detail: EndDetail,
}

/// The text of an error, or nothing.
pub open spec fn error_or_empty(e: Option<Seq<char>>) -> Seq<char> {
    match e {
        Some(s) => s,
        None => Seq::empty(),
    }
}

/// The text of an error, or nothing.
fn copy_error(e: &Option<String>) -> (r: String)
    ensures
        r@ == error_or_empty(opt_text(*e)),
{
    match e {
        Some(s) => s.clone(),
        None => String::new(),
    }
}

/// The record of an evaluation. Where no game could be prepared it holds the error, and otherwise
/// the number of plugins in the load order.
pub fn evaluate_end(resp: &EvalResponse, prepared: bool, tag: PrepCacheTag) -> (r:
    EndRecord)
    ensures
        r.tool == Tool::Evaluate,
        r.ok == (prepared && resp.error is None),
        r.prep_cache matches PrepCacheField::Written(w) && w@ == tag_word(tag),
        if prepared {
            r.detail == EndDetail::PluginCount(resp.load_order_current.len())
        } else {
            r.detail matches EndDetail::Error(e) && e@ == error_or_empty(opt_text(resp.error))
        },
{
    EndRecord {
        tool: Tool::Evaluate,
        ok: prepared && resp.error.is_none(),
        prep_cache: PrepCacheField::Written(tag.word()),
        detail: if prepared {
            EndDetail::PluginCount(resp.load_order_current.len())
        } else {
            EndDetail::Error(copy_error(&resp.error))
        },
    }
}

/// The record of reading a load order: its length and source, or the error.
pub fn load_order_end(resp: &LoadOrderReadResponse) -> (r: EndRecord)
    ensures
        r.tool == Tool::LoadOrder,
        r.ok == (resp.error is None),
        r.prep_cache is Left,
        match resp.error {
            None => r.detail matches EndDetail::LoadOrder { plugin_count, source } && plugin_count
                == resp.plugin_count && opt_text(source) == opt_text(resp.source),
            Some(s) => r.detail matches EndDetail::Error(e) && e@ == s@,
        },
{
    EndRecord {
        tool: Tool::LoadOrder,
        ok: resp.error.is_none(),
        prep_cache: PrepCacheField::Left,
        detail: match &resp.error {
            None => EndDetail::LoadOrder {
                plugin_count: resp.plugin_count,
                source: copy_opt(&resp.source),
            },
            Some(s) => EndDetail::Error(s.clone()),
        },
    }
}

/// The record of a request for named plugins: how many are in the answer.
pub fn plugin_metadata_end(resp: &PluginMetadataResponse, tag: PrepCacheTag) -> (r:
    EndRecord)
    ensures
        r.tool == Tool::PluginMetadata,
        r.ok == (resp.error is None),
        r.prep_cache matches PrepCacheField::Written(w) && w@ == tag_word(tag),
        r.detail matches EndDetail::PluginsReturned(n) && n == resp.plugins@.len(),
{
    EndRecord {
        tool: Tool::PluginMetadata,
        ok: resp.error.is_none(),
        prep_cache: PrepCacheField::Written(tag.word()),
        detail: EndDetail::PluginsReturned(resp.plugins.len()),
    }
}

/// The names of the tools, and what is written where an answer holds no error.
pub proof fn law_records_are_worded(s: Seq<char>)
    ensures
        tool_name(Tool::Evaluate) == "loot_evaluate"@,
        tool_name(Tool::LoadOrder) == "loot_load_order"@,
        tool_name(Tool::PluginMetadata) == "loot_plugin_metadata"@,
        error_or_empty(None).len() == 0,
        error_or_empty(Some(s)) == s,
{
}

} // verus!
