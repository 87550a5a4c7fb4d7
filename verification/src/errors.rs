//! What can go wrong, and how each failure is worded.

use vstd::prelude::*;

verus! {

/// Why a request could not be answered.
#[derive(Debug)]
pub enum LootError {
    /// The game id of the request is none that is known.
    UnknownGameType(String),
    GameInit(String),
    /// A mods folder was given without a profile directory.
    ProfileRequiredForMods,
    /// The profile directory, given here, holds no `modlist.txt`.
    ModlistNotFound(String),
    ReadFailed { path: String, cause: String },
    AdditionalDataPaths(String),
    DatabaseLock,
    CacheLock,
    MasterlistNotFound(String),
    MasterlistWithPrelude(String),
    Masterlist(String),
    Userlist(String),
    LoadOrderState(String),
    EmptyLoadOrder,
    PluginHeaders(String),
    Ambiguity(String),
    Sort(String),
    GeneralMessages(String),
    NoPluginNames,
    /// The quick way to read a load order needs a profile directory.
    ProfileRequired,
}

/// [`LootError`] with its texts as character sequences.
pub enum ErrorView {
    UnknownGameType(Seq<char>),
    GameInit(Seq<char>),
    ProfileRequiredForMods,
    ModlistNotFound(Seq<char>),
    ReadFailed { path: Seq<char>, cause: Seq<char> },
    AdditionalDataPaths(Seq<char>),
    DatabaseLock,
    CacheLock,
    MasterlistNotFound(Seq<char>),
    MasterlistWithPrelude(Seq<char>),
    Masterlist(Seq<char>),
    Userlist(Seq<char>),
    LoadOrderState(Seq<char>),
    EmptyLoadOrder,
    PluginHeaders(Seq<char>),
    Ambiguity(Seq<char>),
    Sort(Seq<char>),
    GeneralMessages(Seq<char>),
    NoPluginNames,
    ProfileRequired,
}

impl View for LootError {
    type V = ErrorView;

    open spec fn view(&self) -> ErrorView {
        match *self {
            LootError::UnknownGameType(s) => ErrorView::UnknownGameType(s@),
            LootError::GameInit(s) => ErrorView::GameInit(s@),
            LootError::ProfileRequiredForMods => ErrorView::ProfileRequiredForMods,
            LootError::ModlistNotFound(s) => ErrorView::ModlistNotFound(s@),
            LootError::ReadFailed { path, cause } => ErrorView::ReadFailed {
                path: path@,
                cause: cause@,
            },
            LootError::AdditionalDataPaths(s) => ErrorView::AdditionalDataPaths(s@),
            LootError::DatabaseLock => ErrorView::DatabaseLock,
            LootError::CacheLock => ErrorView::CacheLock,
            LootError::MasterlistNotFound(s) => ErrorView::MasterlistNotFound(s@),
            LootError::MasterlistWithPrelude(s) => ErrorView::MasterlistWithPrelude(s@),
            LootError::Masterlist(s) => ErrorView::Masterlist(s@),
            LootError::Userlist(s) => ErrorView::Userlist(s@),
            LootError::LoadOrderState(s) => ErrorView::LoadOrderState(s@),
            LootError::EmptyLoadOrder => ErrorView::EmptyLoadOrder,
            LootError::PluginHeaders(s) => ErrorView::PluginHeaders(s@),
            LootError::Ambiguity(s) => ErrorView::Ambiguity(s@),
            LootError::Sort(s) => ErrorView::Sort(s@),
            LootError::GeneralMessages(s) => ErrorView::GeneralMessages(s@),
            LootError::NoPluginNames => ErrorView::NoPluginNames,
            LootError::ProfileRequired => ErrorView::ProfileRequired,
        }
    }
}

/// `s` as the standard library's debug format writes it: in double quotes, with escapes.
pub uninterp spec fn debug_quoted(s: Seq<char>) -> Seq<char>;

/// A printable ASCII character that no quoting escapes.
pub open spec fn is_plain(c: char) -> bool {
    ' ' <= c && c <= '~' && c != '"' && c != '\'' && c != '\\'
}

/// `format!` with `{:?}` on a text. Its result depends on the text alone; of a text that holds
/// only printable ASCII characters other than quotes and backslashes it is the text itself in
/// double quotes.
#[verifier::external_body]
fn quote_debug(s: &str) -> (r: String)
    ensures
        r@ == debug_quoted(s@),
        (forall|i: int| 0 <= i < s@.len() ==> is_plain(#[trigger] s@[i])) ==> r@ == seq!['"'] + s@
            + seq!['"'],
{
    format!("{:?}", s)
}

/// The wording of a failure.
pub open spec fn error_text(e: ErrorView) -> Seq<char> {
    match e {
        ErrorView::UnknownGameType(s) => "unknown game_type: "@ + debug_quoted(s)
            + " (use e.g. SkyrimSE, Fallout4)"@,
        ErrorView::GameInit(s) => "Game init: "@ + s,
        ErrorView::ProfileRequiredForMods =>
            "mo2_mods_path requires game_local_path (MO2 profile directory containing modlist.txt)"@,
        ErrorView::ModlistNotFound(s) => "modlist.txt not found under profile "@ + s
            + " (required when mo2_mods_path is set)"@,
        ErrorView::ReadFailed { path, cause } => "read "@ + path + ": "@ + cause,
        ErrorView::AdditionalDataPaths(s) => "set_additional_data_paths: "@ + s,
        ErrorView::DatabaseLock => "LOOT database lock poisoned"@,
        ErrorView::CacheLock => "prep cache lock poisoned"@,
        ErrorView::MasterlistNotFound(s) => "masterlist not found at "@ + s
            + " (run LOOT once to download, or set masterlist_path)"@,
        ErrorView::MasterlistWithPrelude(s) => "load_masterlist_with_prelude: "@ + s,
        ErrorView::Masterlist(s) => "load_masterlist: "@ + s,
        ErrorView::Userlist(s) => "load_userlist: "@ + s,
        ErrorView::LoadOrderState(s) => "load_current_load_order_state: "@ + s,
        ErrorView::EmptyLoadOrder =>
            "no load order loaded: libloadorder resolves plugins only as files in game/Data and additional_data_paths (non-recursive). MO2 often leaves game/Data empty — set mo2_mods_path to the MO2 mods folder (with game_local_path = profile dir containing modlist.txt), and/or additional_data_paths to flat plugin directories."@,
        ErrorView::PluginHeaders(s) => "load_plugin_headers: "@ + s,
        ErrorView::Ambiguity(s) => "is_load_order_ambiguous: "@ + s,
        ErrorView::Sort(s) => "sort_plugins: "@ + s,
        ErrorView::GeneralMessages(s) => "general_messages: "@ + s,
        ErrorView::NoPluginNames => "plugin_names must contain at least one non-empty name"@,
        ErrorView::ProfileRequired =>
            "game_local_path is required for fast load order (read loadorder.txt / plugins.txt). Set load_order_use_libloadorder true to use libloadorder only (slow with many MO2 mod paths)."@,
    }
}

/// `prefix` followed by `s`.
pub fn prefixed(prefix: &str, s: &str) -> (r: String)
    ensures
        r@ == prefix@ + s@,
{
    let mut out = prefix.to_owned();
    out.append(s);
    out
}

/// `before`, then `s`, then `after`.
pub fn enclosed(before: &str, s: &str, after: &str) -> (r: String)
    ensures
        r@ == before@ + s@ + after@,
{
    let mut out = before.to_owned();
    out.append(s);
    out.append(after);
    out
}

impl LootError {
    /// The wording of this failure.
    pub fn message(&self) -> (r: String)
        ensures
            r@ == error_text(self@),
    {
        match self {
            LootError::UnknownGameType(s) => {
                let q = quote_debug(s.as_str());
                enclosed("unknown game_type: ", q.as_str(), " (use e.g. SkyrimSE, Fallout4)")
            },
            LootError::GameInit(s) => prefixed("Game init: ", s.as_str()),
            LootError::ProfileRequiredForMods =>
                "mo2_mods_path requires game_local_path (MO2 profile directory containing modlist.txt)".to_owned(),
            LootError::ModlistNotFound(s) => enclosed(
                "modlist.txt not found under profile ",
                s.as_str(),
                " (required when mo2_mods_path is set)",
            ),
            LootError::ReadFailed { path, cause } => {
                let mut out = enclosed("read ", path.as_str(), ": ");
                out.append(cause.as_str());
                out
            },
            LootError::AdditionalDataPaths(s) => prefixed(
                "set_additional_data_paths: ",
                s.as_str(),
            ),
            LootError::DatabaseLock => "LOOT database lock poisoned".to_owned(),
            LootError::CacheLock => "prep cache lock poisoned".to_owned(),
            LootError::MasterlistNotFound(s) => enclosed(
                "masterlist not found at ",
                s.as_str(),
                " (run LOOT once to download, or set masterlist_path)",
            ),
            LootError::MasterlistWithPrelude(s) => prefixed(
                "load_masterlist_with_prelude: ",
                s.as_str(),
            ),
            LootError::Masterlist(s) => prefixed("load_masterlist: ", s.as_str()),
            LootError::Userlist(s) => prefixed("load_userlist: ", s.as_str()),
            LootError::LoadOrderState(s) => prefixed(
                "load_current_load_order_state: ",
                s.as_str(),
            ),
            LootError::EmptyLoadOrder =>
                "no load order loaded: libloadorder resolves plugins only as files in game/Data and additional_data_paths (non-recursive). MO2 often leaves game/Data empty — set mo2_mods_path to the MO2 mods folder (with game_local_path = profile dir containing modlist.txt), and/or additional_data_paths to flat plugin directories.".to_owned(),
            LootError::PluginHeaders(s) => prefixed("load_plugin_headers: ", s.as_str()),
            LootError::Ambiguity(s) => prefixed("is_load_order_ambiguous: ", s.as_str()),
            LootError::Sort(s) => prefixed("sort_plugins: ", s.as_str()),
            LootError::GeneralMessages(s) => prefixed("general_messages: ", s.as_str()),
            LootError::NoPluginNames =>
                "plugin_names must contain at least one non-empty name".to_owned(),
            LootError::ProfileRequired =>
                "game_local_path is required for fast load order (read loadorder.txt / plugins.txt). Set load_order_use_libloadorder true to use libloadorder only (slow with many MO2 mod paths).".to_owned(),
        }
    }
}

/// A failure that has a cause is worded with what was being done in front of the cause; the cause
/// itself is kept as it is.
pub proof fn law_causes_are_worded(cause: String, path: String)
    ensures
        error_text(LootError::GameInit(cause)@) == "Game init: "@ + cause@,
        error_text(LootError::AdditionalDataPaths(cause)@) == "set_additional_data_paths: "@
            + cause@,
        error_text(LootError::MasterlistWithPrelude(cause)@) == "load_masterlist_with_prelude: "@
            + cause@,
        error_text(LootError::Masterlist(cause)@) == "load_masterlist: "@ + cause@,
        error_text(LootError::Userlist(cause)@) == "load_userlist: "@ + cause@,
        error_text(LootError::LoadOrderState(cause)@) == "load_current_load_order_state: "@
            + cause@,
        error_text(LootError::PluginHeaders(cause)@) == "load_plugin_headers: "@ + cause@,
        error_text(LootError::Ambiguity(cause)@) == "is_load_order_ambiguous: "@ + cause@,
        error_text(LootError::Sort(cause)@) == "sort_plugins: "@ + cause@,
        error_text(LootError::GeneralMessages(cause)@) == "general_messages: "@ + cause@,
        error_text((LootError::ReadFailed { path, cause })@) == "read "@ + path@ + ": "@ + cause@,
{
}

/// A failure over a name or a path is worded with that name or path in the middle of what it means.
pub proof fn law_missing_things_are_worded(s: String)
    ensures
        error_text(LootError::UnknownGameType(s)@) == "unknown game_type: "@ + debug_quoted(s@)
            + " (use e.g. SkyrimSE, Fallout4)"@,
        error_text(LootError::ModlistNotFound(s)@) == "modlist.txt not found under profile "@ + s@
            + " (required when mo2_mods_path is set)"@,
        error_text(LootError::MasterlistNotFound(s)@) == "masterlist not found at "@ + s@
            + " (run LOOT once to download, or set masterlist_path)"@,
{
}

/// How the failures are worded that come without a cause.
pub proof fn law_plain_failures_are_worded()
    ensures
        error_text(LootError::ProfileRequiredForMods@)
            == "mo2_mods_path requires game_local_path (MO2 profile directory containing modlist.txt)"@,
        error_text(LootError::DatabaseLock@) == "LOOT database lock poisoned"@,
        error_text(LootError::CacheLock@) == "prep cache lock poisoned"@,
        error_text(LootError::EmptyLoadOrder@)
            == "no load order loaded: libloadorder resolves plugins only as files in game/Data and additional_data_paths (non-recursive). MO2 often leaves game/Data empty — set mo2_mods_path to the MO2 mods folder (with game_local_path = profile dir containing modlist.txt), and/or additional_data_paths to flat plugin directories."@,
        error_text(LootError::NoPluginNames@)
            == "plugin_names must contain at least one non-empty name"@,
        error_text(LootError::ProfileRequired@)
            == "game_local_path is required for fast load order (read loadorder.txt / plugins.txt). Set load_order_use_libloadorder true to use libloadorder only (slow with many MO2 mod paths)."@,
{
}

/// Two failures that look the same are of one kind and hold the same texts.
pub proof fn law_failures_are_told_apart(a: LootError, b: LootError)
    requires
        a@ == b@,
    ensures
        match (a, b) {
            (LootError::UnknownGameType(s), LootError::UnknownGameType(t)) => s@ == t@,
            (LootError::GameInit(s), LootError::GameInit(t)) => s@ == t@,
            (LootError::ProfileRequiredForMods, LootError::ProfileRequiredForMods) => true,
            (LootError::ModlistNotFound(s), LootError::ModlistNotFound(t)) => s@ == t@,
            (
                LootError::ReadFailed { path: p, cause: s },
                LootError::ReadFailed { path: q, cause: t },
            ) => p@ == q@ && s@ == t@,
            (LootError::AdditionalDataPaths(s), LootError::AdditionalDataPaths(t)) => s@ == t@,
            (LootError::DatabaseLock, LootError::DatabaseLock) => true,
            (LootError::CacheLock, LootError::CacheLock) => true,
            (LootError::MasterlistNotFound(s), LootError::MasterlistNotFound(t)) => s@ == t@,
            (LootError::MasterlistWithPrelude(s), LootError::MasterlistWithPrelude(t)) => s@ == t@,
            (LootError::Masterlist(s), LootError::Masterlist(t)) => s@ == t@,
            (LootError::Userlist(s), LootError::Userlist(t)) => s@ == t@,
            (LootError::LoadOrderState(s), LootError::LoadOrderState(t)) => s@ == t@,
            (LootError::EmptyLoadOrder, LootError::EmptyLoadOrder) => true,
            (LootError::PluginHeaders(s), LootError::PluginHeaders(t)) => s@ == t@,
            (LootError::Ambiguity(s), LootError::Ambiguity(t)) => s@ == t@,
            (LootError::Sort(s), LootError::Sort(t)) => s@ == t@,
            (LootError::GeneralMessages(s), LootError::GeneralMessages(t)) => s@ == t@,
            (LootError::NoPluginNames, LootError::NoPluginNames) => true,
            (LootError::ProfileRequired, LootError::ProfileRequired) => true,
            _ => false,
        },
{
}

} // verus!
