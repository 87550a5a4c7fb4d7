//! What a client asks for, and how the environment fills in what it leaves out.

use crate::text::{copy_opt, copy_texts, given, given_text, opt_text, texts, trim, trimmed};
use vstd::prelude::*;

verus! {

/// How per-plugin LOOT metadata is shown.
#[derive(Debug, Clone, Copy, Default, PartialEq, Eq, Structural)]
pub enum PluginMetadataContent {
    #[default]
    Full,
    Problems,
}

/// The least severity that general messages must have to be shown.
#[derive(Debug, Clone, Copy, Default, PartialEq, Eq, Structural)]
pub enum GeneralMessageMinSeverity {
    #[default]
    Say,
    Warn,
    Error,
}

/// A request with every default filled in.
#[derive(Debug, Clone)]
pub struct EvalRequest {
    pub game_type: String,
    pub game_path: String,
    pub game_local_path: Option<String>,
    pub loot_data_path: Option<String>,
    pub loot_game_folder: Option<String>,
    pub masterlist_path: Option<String>,
    pub prelude_path: Option<String>,
    pub userlist_path: Option<String>,
    /// Directories scanned for plugins, not recursively. Earlier ones win over later ones and
    /// over the game's own; with OpenMW later ones win over earlier ones, and with Starfield they
    /// count only for plugins that the game's own directory has.
    pub additional_data_paths: Option<Vec<String>>,
    /// The `mods` folder of Mod Organizer 2; needs a profile directory in `game_local_path`.
    pub mo2_mods_path: Option<String>,
    /// Fill in the per-plugin metadata.
    pub include_plugin_metadata: bool,
    pub plugin_metadata_content: PluginMetadataContent,
    /// How many plugins of the load order the page of metadata leaves out at the start.
    pub plugin_metadata_offset: u32,
    /// How many plugins a page of metadata holds; no limit when absent.
    pub plugin_metadata_limit: Option<u32>,
    pub include_master_header_issues: bool,
    /// Show requirements and load-after files among the problems too.
    pub plugin_problems_include_requirements_load_after: bool,
    pub general_messages_min_severity: GeneralMessageMinSeverity,
    /// Sort the plugins; without it the suggested order is the current one.
    pub include_load_order_suggested: bool,
    /// Never read the load order from the profile's text files.
    pub load_order_use_libloadorder: bool,
}

/// The arguments of a tool call as the client sends them.
#[derive(Debug)]
pub struct LootEvaluateArgs {
    pub game_type: String,
    pub game_path: String,
    pub game_local_path: Option<String>,
    pub loot_data_path: Option<String>,
    pub loot_game_folder: Option<String>,
    pub masterlist_path: Option<String>,
    pub prelude_path: Option<String>,
    pub userlist_path: Option<String>,
    pub additional_data_paths: Option<Vec<String>>,
    pub mo2_mods_path: Option<String>,
    pub include_plugin_metadata: bool,
    pub plugin_metadata_content: PluginMetadataContent,
    pub plugin_metadata_offset: u32,
    pub plugin_metadata_limit: Option<u32>,
    pub include_master_header_issues: bool,
    pub plugin_problems_include_requirements_load_after: bool,
    pub general_messages_min_severity: GeneralMessageMinSeverity,
    pub include_load_order_suggested: bool,
    pub load_order_use_libloadorder: bool,
}

/// The arguments of a metadata call for named plugins.
#[derive(Debug)]
pub struct LootPluginMetadataArgs {
    pub base: LootEvaluateArgs,
    pub plugin_names: Vec<String>,
}

/// The environment variables that stand in for arguments, as they are set.
#[derive(Debug)]
pub struct RequestDefaults {
    /// `LOOT_MCP_GAME_TYPE`
    pub game_type: Option<String>,
    /// `LOOT_MCP_GAME_PATH`
    pub game_path: Option<String>,
    /// `LOOT_MCP_GAME_LOCAL_PATH`
    pub game_local_path: Option<String>,
    /// `LOOT_DATA_PATH`
    pub loot_data_path: Option<String>,
    /// `LOOT_MCP_MO2_MODS_PATH`
    pub mo2_mods_path: Option<String>,
}

/// The characters of an optional list of texts.
pub open spec fn opt_texts(o: Option<Vec<String>>) -> Option<Seq<Seq<char>>> {
    match o {
        Some(v) => Some(texts(v@)),
        None => None,
    }
}

/// An argument that holds more than whitespace stands as it is; otherwise the variable counts,
/// where something is left of it after trimming.
pub open spec fn arg_or_env(arg: Option<Seq<char>>, var: Option<Seq<char>>) -> Option<Seq<char>> {
    if given(arg) is Some {
        arg
    } else {
        given(var)
    }
}

/// The trimmed argument; failing that the trimmed variable; failing that the fallback.
pub open spec fn text_or_env(arg: Seq<char>, var: Option<Seq<char>>, fallback: Seq<char>) -> Seq<
    char,
> {
    if trimmed(arg).len() > 0 {
        trimmed(arg)
    } else if let Some(t) = given(var) {
        t
    } else {
        fallback
    }
}

/// A variable's value after trimming, unless nothing is left of it.
pub fn env_nonempty(var: &Option<String>) -> (r: Option<String>)
    ensures
        opt_text(r) == given(opt_text(*var)),
{
    given_text(var)
}

/// The argument, or what the variable gives in its place.
pub fn or_env_opt(arg: Option<String>, var: &Option<String>) -> (r: Option<String>)
    ensures
        opt_text(r) == arg_or_env(opt_text(arg), opt_text(*var)),
{
    let t = given_text(&arg);
    if t.is_some() {
        arg
    } else {
        env_nonempty(var)
    }
}

/// The argument, or what the variable gives in its place, or the fallback.
pub fn or_env_str(arg: String, var: &Option<String>, fallback: &str) -> (r: String)
    ensures
        r@ == text_or_env(arg@, opt_text(*var), fallback@),
{
    let t = trim(arg.as_str());
    if !t.as_str().is_empty() {
        return t;
    }
    match env_nonempty(var) {
        Some(v) => v,
        None => fallback.to_owned(),
    }
}

/// An argument that is given wins over the environment; only where it is left out does the
/// environment count.
pub proof fn law_arguments_win(arg: Seq<char>, var: Option<Seq<char>>, fallback: Seq<char>)
    ensures
        trimmed(arg).len() > 0 ==> arg_or_env(Some(arg), var) == Some(arg) && text_or_env(
            arg,
            var,
            fallback,
        ) == trimmed(arg),
        trimmed(arg).len() == 0 ==> arg_or_env(Some(arg), var) == arg_or_env(None, var),
        trimmed(arg).len() == 0 && given(var) is Some ==> Some(text_or_env(arg, var, fallback))
            == given(var),
        trimmed(arg).len() == 0 && given(var) is None ==> text_or_env(arg, var, fallback)
            == fallback,
{
}

/// The request that the arguments and the environment make together.
pub fn merge_loot_eval_request(args: &LootEvaluateArgs, env: &RequestDefaults) -> (r: EvalRequest)
    ensures
        r.game_type@ == text_or_env(args.game_type@, opt_text(env.game_type), "SkyrimSE"@),
        r.game_path@ == text_or_env(args.game_path@, opt_text(env.game_path), ""@),
        opt_text(r.game_local_path) == arg_or_env(
            opt_text(args.game_local_path),
            opt_text(env.game_local_path),
        ),
        opt_text(r.loot_data_path) == arg_or_env(
            opt_text(args.loot_data_path),
            opt_text(env.loot_data_path),
        ),
        opt_text(r.mo2_mods_path) == arg_or_env(
            opt_text(args.mo2_mods_path),
            opt_text(env.mo2_mods_path),
        ),
        opt_text(r.loot_game_folder) == opt_text(args.loot_game_folder),
        opt_text(r.masterlist_path) == opt_text(args.masterlist_path),
        opt_text(r.prelude_path) == opt_text(args.prelude_path),
        opt_text(r.userlist_path) == opt_text(args.userlist_path),
        opt_texts(r.additional_data_paths) == opt_texts(args.additional_data_paths),
        r.include_plugin_metadata == args.include_plugin_metadata,
        r.plugin_metadata_content == args.plugin_metadata_content,
        r.plugin_metadata_offset == args.plugin_metadata_offset,
        r.plugin_metadata_limit == args.plugin_metadata_limit,
        r.include_master_header_issues == args.include_master_header_issues,
        r.plugin_problems_include_requirements_load_after
            == args.plugin_problems_include_requirements_load_after,
        r.general_messages_min_severity == args.general_messages_min_severity,
        r.include_load_order_suggested == args.include_load_order_suggested,
        r.load_order_use_libloadorder == args.load_order_use_libloadorder,
{
    EvalRequest {
        game_type: or_env_str(args.game_type.clone(), &env.game_type, "SkyrimSE"),
        game_path: or_env_str(args.game_path.clone(), &env.game_path, ""),
        game_local_path: or_env_opt(copy_opt(&args.game_local_path), &env.game_local_path),
        loot_data_path: or_env_opt(copy_opt(&args.loot_data_path), &env.loot_data_path),
        loot_game_folder: copy_opt(&args.loot_game_folder),
        masterlist_path: copy_opt(&args.masterlist_path),
        prelude_path: copy_opt(&args.prelude_path),
        userlist_path: copy_opt(&args.userlist_path),
        additional_data_paths: match &args.additional_data_paths {
            Some(v) => Some(copy_texts(v)),
            None => None,
        },
        mo2_mods_path: or_env_opt(copy_opt(&args.mo2_mods_path), &env.mo2_mods_path),
        include_plugin_metadata: args.include_plugin_metadata,
        plugin_metadata_content: args.plugin_metadata_content,
        plugin_metadata_offset: args.plugin_metadata_offset,
        plugin_metadata_limit: args.plugin_metadata_limit,
        include_master_header_issues: args.include_master_header_issues,
        plugin_problems_include_requirements_load_after:
            args.plugin_problems_include_requirements_load_after,
        general_messages_min_severity: args.general_messages_min_severity,
        include_load_order_suggested: args.include_load_order_suggested,
        load_order_use_libloadorder: args.load_order_use_libloadorder,
    }
}

/// The views of optional lists of texts leave nothing out.
pub proof fn law_optional_lists(o: Option<Vec<String>>)
    ensures
        o is None ==> opt_texts(o) is None,
        o matches Some(v) ==> {
            &&& opt_texts(o) is Some
            &&& opt_texts(o)->0.len() == v@.len()
            &&& forall|i: int| 0 <= i < v@.len() ==> #[trigger] opt_texts(o)->0[i] == v@[i]@
        },
{
}

/// Where an argument is left out or blank the environment counts: nothing where its variable is
/// unset or blank, and otherwise what trimming leaves of the variable.
pub proof fn law_environment_stands_in(arg: Option<Seq<char>>, var: Seq<char>)
    requires
        arg matches Some(s) ==> trimmed(s).len() == 0,
    ensures
        arg_or_env(arg, None) is None,
        trimmed(var).len() == 0 ==> arg_or_env(arg, Some(var)) is None,
        trimmed(var).len() > 0 ==> arg_or_env(arg, Some(var)) == Some(trimmed(var)),
{
}

} // verus!
