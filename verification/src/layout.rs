//! Where LOOT keeps its data: the data root, the folder of a game and the lists in it.

use crate::game::{default_loot_folder, loot_folder, GameType};
use crate::paths::{path_at, JoinedPath, PathView};
use crate::text::{given, given_text, opt_text, trimmed};
use vstd::prelude::*;

verus! {

/// The platform and the environment variables that decide where LOOT's data is.
#[derive(Debug)]
pub struct DataPathEnv {
    pub windows: bool,
    /// `LOOT_DATA_PATH`
    pub loot_data_path: Option<String>,
    /// `LOCALAPPDATA`
    pub local_app_data: Option<String>,
    /// `HOME`
    pub home: Option<String>,
    /// `XDG_DATA_HOME`
    pub xdg_data_home: Option<String>,
}

/// The user's data directory, in which LOOT has its own.
pub open spec fn user_data_base(
    windows: bool,
    local_app_data: Option<Seq<char>>,
    home: Option<Seq<char>>,
    xdg_data_home: Option<Seq<char>>,
) -> Seq<char> {
    if windows {
        match local_app_data {
            Some(b) => b,
            None => "."@,
        }
    } else {
        match xdg_data_home {
            Some(x) => x,
            None => match home {
                Some(h) => h + "/.local/share"@,
                None => "."@ + "/.local/share"@,
            },
        }
    }
}

/// LOOT's data root where a request names none.
pub open spec fn default_data_root(env: DataPathEnv) -> PathView {
    match given(opt_text(env.loot_data_path)) {
        Some(p) => path_at(p),
        None => path_at(
            user_data_base(
                env.windows,
                opt_text(env.local_app_data),
                opt_text(env.home),
                opt_text(env.xdg_data_home),
            ),
        ).join("LOOT"@),
    }
}

/// LOOT's data root where a request names none.
pub fn default_loot_data_path(env: &DataPathEnv) -> (r: JoinedPath)
    ensures
        r@ == default_data_root(*env),
{
    if let Some(p) = given_text(&env.loot_data_path) {
        return JoinedPath::at(p.as_str());
    }
    let base: String = if env.windows {
        match &env.local_app_data {
            Some(b) => b.clone(),
            None => ".".to_owned(),
        }
    } else {
        match &env.xdg_data_home {
            Some(x) => x.clone(),
            None => {
                let mut h: String = match &env.home {
                    Some(h) => h.clone(),
                    None => ".".to_owned(),
                };
                h.append("/.local/share");
                h
            },
        }
    };
    JoinedPath::at(base.as_str()).join("LOOT")
}

/// A path given in a request, or else the default.
pub open spec fn given_or(arg: Option<Seq<char>>, default: Seq<char>) -> Seq<char> {
    match given(arg) {
        Some(p) => p,
        None => default,
    }
}

/// The text given in a request, or else the default.
pub fn text_given_or(arg: &Option<String>, default: &str) -> (r: String)
    ensures
        r@ == given_or(opt_text(*arg), default@),
{
    match given_text(arg) {
        Some(p) => p,
        None => default.to_owned(),
    }
}

/// The folder of the game: the one given, or else the one that belongs to the game.
pub fn game_folder(arg: &Option<String>, g: GameType) -> (r: String)
    ensures
        r@ == given_or(opt_text(*arg), loot_folder(g)),
{
    match given_text(arg) {
        Some(p) => p,
        None => default_loot_folder(g),
    }
}

/// The game's directory in the present layout of the data root.
pub open spec fn games_dir(root: Seq<char>, folder: Seq<char>) -> PathView {
    path_at(root).join("games"@).join(folder)
}

/// The game's directory in the old layout of the data root.
pub open spec fn legacy_dir(root: Seq<char>, folder: Seq<char>) -> PathView {
    path_at(root).join(folder)
}

/// What has to be looked up to tell which layout the data root has.
#[derive(Debug)]
pub struct LayoutProbes {
    /// Does this file exist?
    pub games_masterlist: JoinedPath,
    /// Does this file exist?
    pub legacy_masterlist: JoinedPath,
    /// Is this a directory?
    pub games_dir: JoinedPath,
}

/// The answers to [`LayoutProbes`].
#[derive(Debug, Clone, Copy)]
pub struct LayoutFacts {
    pub games_masterlist: bool,
    pub legacy_masterlist: bool,
    pub games_dir: bool,
}

/// What to look up for a data root and a game folder.
pub fn layout_probes(root: &str, folder: &str) -> (r: LayoutProbes)
    ensures
        r.games_masterlist@ == games_dir(root@, folder@).join("masterlist.yaml"@),
        r.legacy_masterlist@ == legacy_dir(root@, folder@).join("masterlist.yaml"@),
        r.games_dir@ == path_at(root@).join("games"@),
{
    let games = JoinedPath::at(root).join("games");
    LayoutProbes {
        games_masterlist: games.join(folder).join("masterlist.yaml"),
        legacy_masterlist: JoinedPath::at(root).join(folder).join("masterlist.yaml"),
        games_dir: games,
    }
}

/// The game's directory under the data root: the one that holds a masterlist, the present layout
/// before the old one; without any masterlist, the present layout where `games` is a directory.
pub open spec fn game_dir(root: Seq<char>, folder: Seq<char>, facts: LayoutFacts) -> PathView {
    if facts.games_masterlist || (!facts.legacy_masterlist && facts.games_dir) {
        games_dir(root, folder)
    } else {
        legacy_dir(root, folder)
    }
}

/// The game's directory under the data root.
pub fn resolve_game_loot_dir(root: &str, folder: &str, facts: LayoutFacts) -> (r: JoinedPath)
    ensures
        r@ == game_dir(root@, folder@, facts),
{
    let via_games = JoinedPath::at(root).join("games").join(folder);
    let legacy = JoinedPath::at(root).join(folder);
    if facts.games_masterlist {
        via_games
    } else if facts.legacy_masterlist {
        legacy
    } else if facts.games_dir {
        via_games
    } else {
        legacy
    }
}

/// The prelude that all games share.
pub open spec fn shared_prelude(root: Seq<char>) -> PathView {
    path_at(root).join("prelude"@).join("prelude.yaml"@)
}

/// The prelude that all games share.
pub fn shared_prelude_path(root: &str) -> (r: JoinedPath)
    ensures
        r@ == shared_prelude(root@),
{
    JoinedPath::at(root).join("prelude").join("prelude.yaml")
}

/// The prelude to use where a request names none: the shared one, where it exists, or else the
/// game's own.
pub fn default_prelude_path(root: &str, game_dir: &JoinedPath, shared_exists: bool) -> (r:
    JoinedPath)
    ensures
        r@ == if shared_exists {
            shared_prelude(root@)
        } else {
            game_dir@.join("prelude.yaml"@)
        },
{
    if shared_exists {
        shared_prelude_path(root)
    } else {
        game_dir.join("prelude.yaml")
    }
}

/// The path given in a request, or else the default.
pub open spec fn path_given_or(arg: Option<Seq<char>>, default: PathView) -> PathView {
    match given(arg) {
        Some(p) => path_at(p),
        None => default,
    }
}

/// The path given in a request, or else the default.
pub fn list_path(arg: &Option<String>, default: JoinedPath) -> (r: JoinedPath)
    ensures
        r@ == path_given_or(opt_text(*arg), default@),
{
    match given_text(arg) {
        Some(p) => JoinedPath::at(p.as_str()),
        None => default,
    }
}

/// Where LOOT's data is when a request does not say: where the environment says, and otherwise in
/// `LOOT` in the user's data directory, which each platform has in its own place.
pub proof fn law_data_root(env: DataPathEnv)
    ensures
        ({
            let root = default_data_root(env);
            let named = env.loot_data_path is Some && trimmed(env.loot_data_path->0@).len() > 0;
            &&& named ==> root.base == trimmed(env.loot_data_path->0@) && root.parts.len() == 0
            &&& !named ==> root.parts == seq!["LOOT"@]
            &&& !named && env.windows ==> root.base == match env.local_app_data {
                Some(dir) => dir@,
                None => "."@,
            }
            &&& !named && !env.windows ==> root.base == match (env.xdg_data_home, env.home) {
                (Some(dir), _) => dir@,
                (None, Some(home)) => home@ + "/.local/share"@,
                (None, None) => "./.local/share"@,
            }
        }),
{
    reveal_strlit(".");
    reveal_strlit("/.local/share");
    reveal_strlit("./.local/share");
    assert("."@ + "/.local/share"@ =~= "./.local/share"@);
    assert(default_data_root(env).parts =~= Seq::<Seq<char>>::empty()
        || default_data_root(env).parts =~= seq!["LOOT"@]);
}

/// What a request gives counts, trimmed; only where nothing is left of it does the default.
pub proof fn law_given_before_default(arg: Seq<char>, text: Seq<char>, path: PathView)
    ensures
        given_or(None, text) == text,
        path_given_or(None, path) == path,
        trimmed(arg).len() == 0 ==> given_or(Some(arg), text) == text && path_given_or(
            Some(arg),
            path,
        ) == path,
        trimmed(arg).len() > 0 ==> given_or(Some(arg), text) == trimmed(arg) && path_given_or(
            Some(arg),
            path,
        ).base == trimmed(arg) && path_given_or(Some(arg), path).parts.len() == 0,
{
}

/// The directory of a game is its folder in the data root or in `games` there. A directory with a
/// masterlist is taken before one without, and of two that have one the one in `games`; where
/// neither has one, `games` is taken where it is there.
pub proof fn law_game_directory(root: Seq<char>, folder: Seq<char>, facts: LayoutFacts)
    ensures
        game_dir(root, folder, facts).base == root,
        facts.games_masterlist ==> game_dir(root, folder, facts).parts == seq!["games"@, folder],
        !facts.games_masterlist && facts.legacy_masterlist ==> game_dir(root, folder, facts).parts
            == seq![folder],
        !facts.games_masterlist && !facts.legacy_masterlist && facts.games_dir ==> game_dir(
            root,
            folder,
            facts,
        ).parts == seq!["games"@, folder],
        !facts.games_masterlist && !facts.legacy_masterlist && !facts.games_dir ==> game_dir(
            root,
            folder,
            facts,
        ).parts == seq![folder],
{
    law_layout_paths(root, folder);
}

/// Where the two layouts of the data root have the directory of a game, and where the prelude is
/// that all games share.
pub proof fn law_layout_paths(root: Seq<char>, folder: Seq<char>)
    ensures
        games_dir(root, folder).base == root,
        games_dir(root, folder).parts == seq!["games"@, folder],
        legacy_dir(root, folder).base == root,
        legacy_dir(root, folder).parts == seq![folder],
        shared_prelude(root).base == root,
        shared_prelude(root).parts == seq!["prelude"@, "prelude.yaml"@],
{
    assert(games_dir(root, folder).parts =~= seq!["games"@, folder]);
    assert(legacy_dir(root, folder).parts =~= seq![folder]);
    assert(shared_prelude(root).parts =~= seq!["prelude"@, "prelude.yaml"@]);
}

} // verus!
