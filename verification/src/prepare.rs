//! Preparing a game, step by step.
//!
//! Each type is a step: its fields and methods say what the program has to do with libloot or the
//! file system, and the method that takes the outcome leads to the next step or ends the
//! preparation. The steps are the same for an evaluation and for reading the load order up to the
//! point at which the additional directories are set.

use crate::cache::request_game_dir;
use crate::errors::{ErrorView, LootError};
use crate::evaluate::PreparedEval;
use crate::game::{data_root, loot_folder, parse_game_type, parsed_game_type, GameType};
use crate::layout::{
    default_prelude_path, game_folder, games_dir, given_or, law_layout_paths, layout_probes,
    legacy_dir, list_path, path_given_or, resolve_game_loot_dir, shared_prelude,
    shared_prelude_path, text_given_or, LayoutFacts, LayoutProbes,
};
use crate::load_order::{
    answers_from_library, library_order_response, LibraryOrder, LoadOrderReadResponse,
};
use crate::mods::{
    additional_paths, collect_additional_data_paths, enabled_from_modlist, facts_for, listed_paths,
    mo2_additional_plugin_roots, mo2_scan, mod_dir, mod_dirs, mod_roots, modlist_outcome,
    modlist_path, scan_wanted, Mo2Scan, ModDirFacts, ModDirs, ModlistRead,
};
use crate::paths::{copy_paths, path_at, path_views, JoinedPath, PathView};
use crate::plugin_index::{
    absolute_plugin_paths_for_libloot, answers_for, directories_to_index, index_directories,
    indexed, indexed_directories, law_plugins_come_from_the_first_directory, plugin_path,
    plugin_search, searched_files, PluginIndex,
};
use crate::profile::enabled_mods;
use crate::request::{opt_texts, EvalRequest};
use crate::text::{given, given_text, lowered, opt_text, texts};
use vstd::prelude::*;

verus! {

/// To do: open the game at the request's game path, with `local_path` where there is one.
pub struct GameOpening<'a> {
    pub req: &'a EvalRequest,
    pub game_type: GameType,
    pub local_path: Option<String>,
}

/// What is to be done once the game is open.
pub enum PathCollection<'a> {
    /// The additional directories are known.
    Known(PathSetting<'a>),
    /// They depend on the mods of a profile.
    Mods(ModlistReading<'a>),
}

/// To do: read the profile's list of mods.
pub struct ModlistReading<'a> {
    pub req: &'a EvalRequest,
    pub game_type: GameType,
    pub scan: Mo2Scan,
}

/// To do: find out which directories the enabled mods have.
pub struct ModProbing<'a> {
    pub req: &'a EvalRequest,
    pub game_type: GameType,
    pub mods_root: String,
    pub enabled: Vec<String>,
}

/// To do: hand the additional directories to the game, if there are any.
pub struct PathSetting<'a> {
    pub req: &'a EvalRequest,
    pub game_type: GameType,
    pub additional: Vec<JoinedPath>,
}

/// A game that knows where its plugins may be.
pub struct Configured<'a> {
    pub req: &'a EvalRequest,
    pub game_type: GameType,
    pub additional: Vec<JoinedPath>,
}

impl<'a> GameOpening<'a> {
    /// Starts the preparation of the game that a request names.
    pub fn plan(req: &'a EvalRequest) -> (r: Result<GameOpening<'a>, LootError>)
        ensures
            match r {
                Ok(s) => parsed_game_type(req.game_type@) == Ok::<GameType, ErrorView>(s.game_type)
                    && s.req == req && opt_text(s.local_path) == given(
                    opt_text(req.game_local_path),
                ),
                Err(e) => parsed_game_type(req.game_type@) == Err::<GameType, ErrorView>(e@),
            },
    {
        match parse_game_type(req.game_type.as_str()) {
            Ok(game_type) => Ok(
                GameOpening { req, game_type, local_path: given_text(&req.game_local_path) },
            ),
            Err(e) => Err(e),
        }
    }

    /// Goes on once opening the game has succeeded or failed.
    pub fn opened(self, outcome: Result<(), String>) -> (r: Result<PathCollection<'a>, LootError>)
        ensures
            match outcome {
                Err(e) => r matches Err(f) && f@ == ErrorView::GameInit(e@),
                Ok(_) => match scan_wanted(
                    opt_text(self.req.mo2_mods_path),
                    opt_text(self.req.game_local_path),
                ) {
                    Err(e) => r matches Err(f) && f@ == e,
                    Ok(None) => r matches Ok(PathCollection::Known(s)) && s.req == self.req
                        && s.game_type == self.game_type && path_views(s.additional@)
                        == additional_paths(
                        opt_texts(self.req.additional_data_paths),
                        Seq::empty(),
                    ),
                    Ok(Some(scan)) => r matches Ok(PathCollection::Mods(s)) && s.req == self.req
                        && s.game_type == self.game_type && s.scan@ == scan,
                },
            },
    {
        if let Err(e) = outcome {
            return Err(LootError::GameInit(e));
        }
        match mo2_scan(self.req) {
            Err(e) => Err(e),
            Ok(None) => {
                let none: Vec<JoinedPath> = Vec::new();
                assert(path_views(none@) =~= Seq::<PathView>::empty());
                Ok(
                    PathCollection::Known(
                        PathSetting {
                            req: self.req,
                            game_type: self.game_type,
                            additional: collect_additional_data_paths(
                                &self.req.additional_data_paths,
                                none,
                            ),
                        },
                    ),
                )
            },
            Ok(Some(scan)) => Ok(
                PathCollection::Mods(
                    ModlistReading { req: self.req, game_type: self.game_type, scan },
                ),
            ),
        }
    }
}

impl<'a> ModlistReading<'a> {
    /// The file to read.
    pub fn path(&self) -> (r: JoinedPath)
        ensures
            r@ == path_at(self.scan@.profile_dir).join("modlist.txt"@),
    {
        modlist_path(self.scan.profile_dir.as_str())
    }

    /// Goes on with what reading the file gave.
    pub fn read(self, read: ModlistRead) -> (r: Result<ModProbing<'a>, LootError>)
        ensures
            match modlist_outcome(self.scan@.profile_dir, read) {
                Ok(names) => r matches Ok(s) && s.req == self.req && s.game_type == self.game_type
                    && s.mods_root@ == self.scan@.mods_root && texts(s.enabled@) == names,
                Err(e) => r matches Err(f) && f@ == e,
            },
    {
        match enabled_from_modlist(self.scan.profile_dir.as_str(), read) {
            Ok(enabled) => Ok(
                ModProbing {
                    req: self.req,
                    game_type: self.game_type,
                    mods_root: self.scan.mods_root,
                    enabled,
                },
            ),
            Err(e) => Err(e),
        }
    }
}

impl<'a> ModProbing<'a> {
    /// The directories to look up, for each enabled mod.
    pub fn directories(&self) -> (r: Vec<ModDirs>)
        ensures
            r@.len() == self.enabled@.len(),
            forall|i: int|
                0 <= i < r@.len() ==> (#[trigger] r@[i]).own@ == mod_dir(
                    self.mods_root@,
                    self.enabled@[i]@,
                ) && r@[i].data@ == mod_dir(self.mods_root@, self.enabled@[i]@).join("Data"@),
    {
        mod_dirs(self.mods_root.as_str(), &self.enabled)
    }

    /// Goes on with which of the directories exist.
    pub fn probed(self, facts: &Vec<ModDirFacts>) -> (r: PathSetting<'a>)
        ensures
            r.req == self.req,
            r.game_type == self.game_type,
            path_views(r.additional@) == additional_paths(
                opt_texts(self.req.additional_data_paths),
                mod_roots(
                    self.mods_root@,
                    texts(self.enabled@),
                    facts_for(facts@, self.enabled@.len()),
                ),
            ),
    {
        let roots = mo2_additional_plugin_roots(self.mods_root.as_str(), &self.enabled, facts);
        PathSetting {
            req: self.req,
            game_type: self.game_type,
            additional: collect_additional_data_paths(&self.req.additional_data_paths, roots),
        }
    }
}

impl<'a> PathSetting<'a> {
    /// Whether there is anything to hand to the game.
    pub fn is_needed(&self) -> (r: bool)
        ensures
            r == (self.additional@.len() > 0),
    {
        self.additional.len() > 0
    }

    /// Goes on once the directories have been handed over; where there are none, `outcome` does
    /// not count.
    pub fn set(self, outcome: Result<(), String>) -> (r: Result<Configured<'a>, LootError>)
        ensures
            if self.additional@.len() > 0 && outcome is Err {
                r matches Err(f) && f@ == ErrorView::AdditionalDataPaths(outcome->Err_0@)
            } else {
                r matches Ok(s) && s.req == self.req && s.game_type == self.game_type
                    && s.additional == self.additional
            },
    {
        if self.additional.len() > 0 {
            if let Err(e) = outcome {
                return Err(LootError::AdditionalDataPaths(e));
            }
        }
        Ok(
            Configured {
                req: self.req,
                game_type: self.game_type,
                additional: self.additional,
            },
        )
    }
}

/// To do: load the masterlist, with the prelude where it exists, and the userlist where it exists.
pub struct ListLoading<'a> {
    pub setup: Configured<'a>,
    pub masterlist: JoinedPath,
    pub prelude: JoinedPath,
    pub userlist: JoinedPath,
}

/// What is known of the lists before they are loaded.
#[derive(Debug)]
pub struct ListFacts {
    /// LOOT's database could not be locked.
    pub lock_poisoned: bool,
    pub masterlist_exists: bool,
    pub prelude_exists: bool,
    pub userlist_exists: bool,
    /// The masterlist's path as it is shown. It counts only where the request names no masterlist:
    /// a path that is given is shown as it was given.
    pub masterlist_shown: String,
}

/// To do: load the masterlist, with the prelude or without, and then the userlist, or not.
pub struct ListsChecked<'a> {
    pub lists: ListLoading<'a>,
    pub masterlist_path_str: String,
    pub with_prelude: bool,
    pub with_userlist: bool,
}

/// To do: load the current state of the load order.
pub struct OrderLoading<'a> {
    pub setup: Configured<'a>,
    pub masterlist_path_str: String,
    pub prelude_loaded: bool,
    pub userlist_loaded: bool,
}

/// To do: find the files of the plugins of the load order, beside the game's own plugins in the
/// directories of `searched`.
pub struct PluginLocating<'a> {
    pub setup: Configured<'a>,
    pub searched: Vec<JoinedPath>,
    pub prepared: PreparedEval,
}

/// To do: load the headers of the plugins from `paths`.
pub struct HeaderLoading {
    pub paths: Vec<JoinedPath>,
    pub prepared: PreparedEval,
}

/// LOOT's data root for a request.
pub open spec fn request_root(req: EvalRequest, default_root: Seq<char>) -> Seq<char> {
    given_or(opt_text(req.loot_data_path), default_root)
}

impl<'a> Configured<'a> {
    /// Ends the preparation with the load order that libloadorder gives.
    pub fn library_order(
        self,
        state: Result<(), String>,
        ambiguous: Result<bool, String>,
        load_order: Vec<String>,
    ) -> (r: Result<LibraryOrder, LootError>)
        ensures
            match state {
                Err(e) => r matches Err(f) && f@ == ErrorView::LoadOrderState(e@),
                Ok(_) => match ambiguous {
                    Err(e) => r matches Err(f) && f@ == ErrorView::Ambiguity(e@),
                    Ok(b) => r matches Ok(o) && o.ambiguous == b && o.load_order == load_order,
                },
            },
    {
        if let Err(e) = state {
            return Err(LootError::LoadOrderState(e));
        }
        match ambiguous {
            Err(e) => Err(LootError::Ambiguity(e)),
            Ok(ambiguous) => Ok(LibraryOrder { load_order, ambiguous }),
        }
    }

    /// What to look up to find the game's directory in LOOT's data.
    pub fn layout_probes(&self, default_root: &str) -> (r: LayoutProbes)
        ensures
            ({
                let root = request_root(*self.req, default_root@);
                let folder = given_or(
                    opt_text(self.req.loot_game_folder),
                    loot_folder(self.game_type),
                );
                &&& r.games_masterlist@ == games_dir(root, folder).join("masterlist.yaml"@)
                &&& r.legacy_masterlist@ == legacy_dir(root, folder).join("masterlist.yaml"@)
                &&& r.games_dir@ == path_at(root).join("games"@)
            }),
    {
        let root = text_given_or(&self.req.loot_data_path, default_root);
        let folder = game_folder(&self.req.loot_game_folder, self.game_type);
        layout_probes(root.as_str(), folder.as_str())
    }

    /// The shared prelude, of which has to be known whether it exists.
    pub fn shared_prelude(&self, default_root: &str) -> (r: JoinedPath)
        ensures
            r@ == shared_prelude(request_root(*self.req, default_root@)),
    {
        let root = text_given_or(&self.req.loot_data_path, default_root);
        shared_prelude_path(root.as_str())
    }

    /// Chooses the lists to load.
    pub fn choose_lists(
        self,
        default_root: &str,
        layout: LayoutFacts,
        shared_prelude_exists: bool,
    ) -> (r: ListLoading<'a>)
        ensures
            ({
                let dir = request_game_dir(*self.req, self.game_type, default_root@, layout);
                &&& r.setup == self
                &&& r.masterlist@ == path_given_or(
                    opt_text(self.req.masterlist_path),
                    dir.join("masterlist.yaml"@),
                )
                &&& r.prelude@ == path_given_or(
                    opt_text(self.req.prelude_path),
                    if shared_prelude_exists {
                        shared_prelude(request_root(*self.req, default_root@))
                    } else {
                        dir.join("prelude.yaml"@)
                    },
                )
                &&& r.userlist@ == path_given_or(
                    opt_text(self.req.userlist_path),
                    dir.join("userlist.yaml"@),
                )
            }),
    {
        let root = text_given_or(&self.req.loot_data_path, default_root);
        let folder = game_folder(&self.req.loot_game_folder, self.game_type);
        let dir = resolve_game_loot_dir(root.as_str(), folder.as_str(), layout);
        let default_prelude = default_prelude_path(root.as_str(), &dir, shared_prelude_exists);
        let masterlist = list_path(&self.req.masterlist_path, dir.join("masterlist.yaml"));
        let prelude = list_path(&self.req.prelude_path, default_prelude);
        let userlist = list_path(&self.req.userlist_path, dir.join("userlist.yaml"));
        ListLoading { setup: self, masterlist, prelude, userlist }
    }
}

/// The masterlist's path as it is shown: the one that the request gives, or else `joined`, the shown
/// form of the default path.
pub open spec fn masterlist_text(req: EvalRequest, joined: Seq<char>) -> Seq<char> {
    given_or(opt_text(req.masterlist_path), joined)
}

impl<'a> ListLoading<'a> {
    /// Decides how the lists are loaded.
    pub fn check(self, facts: ListFacts) -> (r: Result<ListsChecked<'a>, LootError>)
        ensures
            if facts.lock_poisoned {
                r matches Err(f) && f@ == ErrorView::DatabaseLock
            } else if !facts.masterlist_exists {
                r matches Err(f) && f@ == ErrorView::MasterlistNotFound(
                    masterlist_text(*self.setup.req, facts.masterlist_shown@),
                )
            } else {
                r matches Ok(s) && s.lists == self && s.masterlist_path_str@
                    == masterlist_text(*self.setup.req, facts.masterlist_shown@) && s.with_prelude == facts.prelude_exists
                    && s.with_userlist == facts.userlist_exists
            },
    {
        if facts.lock_poisoned {
            return Err(LootError::DatabaseLock);
        }
        let shown = text_given_or(
            &self.setup.req.masterlist_path,
            facts.masterlist_shown.as_str(),
        );
        if !facts.masterlist_exists {
            return Err(LootError::MasterlistNotFound(shown));
        }
        Ok(
            ListsChecked {
                lists: self,
                masterlist_path_str: shown,
                with_prelude: facts.prelude_exists,
                with_userlist: facts.userlist_exists,
            },
        )
    }
}

impl<'a> ListsChecked<'a> {
    /// Goes on once the lists have been loaded; `userlist` counts only where there is a userlist
    /// to load. `userlist_exists` says whether the userlist is there afterwards.
    pub fn loaded(
        self,
        masterlist: Result<(), String>,
        userlist: Result<(), String>,
        userlist_exists: bool,
    ) -> (r: Result<OrderLoading<'a>, LootError>)
        ensures
            if let Err(e) = masterlist {
                r matches Err(f) && f@ == if self.with_prelude {
                    ErrorView::MasterlistWithPrelude(e@)
                } else {
                    ErrorView::Masterlist(e@)
                }
            } else if self.with_userlist && userlist is Err {
                r matches Err(f) && f@ == ErrorView::Userlist(userlist->Err_0@)
            } else {
                r matches Ok(s) && s.setup == self.lists.setup && s.masterlist_path_str@
                    == self.masterlist_path_str@ && s.prelude_loaded == self.with_prelude
                    && s.userlist_loaded == userlist_exists
            },
    {
        if let Err(e) = masterlist {
            return Err(
                if self.with_prelude {
                    LootError::MasterlistWithPrelude(e)
                } else {
                    LootError::Masterlist(e)
                },
            );
        }
        if self.with_userlist {
            if let Err(e) = userlist {
                return Err(LootError::Userlist(e));
            }
        }
        Ok(
            OrderLoading {
                setup: self.lists.setup,
                masterlist_path_str: self.masterlist_path_str,
                prelude_loaded: self.with_prelude,
                userlist_loaded: userlist_exists,
            },
        )
    }
}

/// The directories that are searched beside the main one: those that were set, or, where none were,
/// those that the game has by itself.
pub open spec fn searched_directories(additional: Seq<PathView>, own: Seq<PathView>) -> Seq<
    PathView,
> {
    if additional.len() > 0 {
        additional
    } else {
        own
    }
}

impl<'a> OrderLoading<'a> {
    /// Goes on with the load order; one without plugins ends the preparation. `own` holds the
    /// additional directories that the game has by itself. They are searched only where none were
    /// set: those that are set take their place.
    pub fn ordered(
        self,
        state: Result<(), String>,
        load_order: Vec<String>,
        own: Vec<JoinedPath>,
    ) -> (r: Result<PluginLocating<'a>, LootError>)
        ensures
            if let Err(e) = state {
                r matches Err(f) && f@ == ErrorView::LoadOrderState(e@)
            } else if load_order@.len() == 0 {
                r matches Err(f) && f@ == ErrorView::EmptyLoadOrder
            } else {
                r matches Ok(s) && s.setup == self.setup && path_views(s.searched@)
                    == searched_directories(path_views(self.setup.additional@), path_views(own@))
                    && s.prepared.current == load_order
                    && s.prepared.masterlist_path_str@ == self.masterlist_path_str@
                    && s.prepared.prelude_loaded == self.prelude_loaded
                    && s.prepared.userlist_loaded == self.userlist_loaded
            },
    {
        if let Err(e) = state {
            return Err(LootError::LoadOrderState(e));
        }
        if load_order.len() == 0 {
            return Err(LootError::EmptyLoadOrder);
        }
        let searched = if self.setup.additional.len() > 0 {
            copy_paths(&self.setup.additional)
        } else {
            own
        };
        assert(path_views(self.setup.additional@).len() == self.setup.additional@.len());
        Ok(
            PluginLocating {
                setup: self.setup,
                searched,
                prepared: PreparedEval {
                    current: load_order,
                    masterlist_path_str: self.masterlist_path_str,
                    prelude_loaded: self.prelude_loaded,
                    userlist_loaded: self.userlist_loaded,
                },
            },
        )
    }
}

impl<'a> PluginLocating<'a> {
    /// The directories whose files have to be listed and indexed first.
    pub fn directories(&self) -> (r: Vec<JoinedPath>)
        ensures
            path_views(r@) == indexed_directories(
                self.setup.game_type,
                data_root(self.setup.game_type, self.setup.req.game_path@),
                path_views(self.searched@),
            ),
    {
        directories_to_index(
            self.setup.game_type,
            self.setup.req.game_path.as_str(),
            &self.searched,
        )
    }

    /// The files to look for, in their order, to find a plugin.
    pub fn search(&self, name: &str, index: &PluginIndex) -> (r: Vec<JoinedPath>)
        ensures
            path_views(r@) == searched_files(
                self.setup.game_type,
                data_root(self.setup.game_type, self.setup.req.game_path@),
                path_views(self.searched@),
                name@,
                index@.contains_key(lowered(name@)),
            ),
    {
        plugin_search(
            self.setup.game_type,
            self.setup.req.game_path.as_str(),
            &self.searched,
            name,
            index,
        )
    }

    /// Goes on with what was found for each plugin, in the order of the plugins.
    pub fn located(self, index: &PluginIndex, found: &Vec<Vec<bool>>) -> (r: HeaderLoading)
        ensures
            r.prepared == self.prepared,
            r.paths@.len() == self.prepared.current@.len(),
            forall|i: int|
                0 <= i < r.paths@.len() ==> (#[trigger] r.paths@[i])@ == plugin_path(
                    self.setup.game_type,
                    data_root(self.setup.game_type, self.setup.req.game_path@),
                    path_views(self.searched@),
                    self.prepared.current@[i]@,
                    index@,
                    answers_for(found@, i),
                ),
    {
        let paths = absolute_plugin_paths_for_libloot(
            self.setup.game_type,
            self.setup.req.game_path.as_str(),
            &self.searched,
            &self.prepared.current,
            index,
            found,
        );
        HeaderLoading { paths, prepared: self.prepared }
    }
}

impl HeaderLoading {
    /// Ends the preparation once the headers have been loaded.
    pub fn loaded(self, outcome: Result<(), String>) -> (r: Result<PreparedEval, LootError>)
        ensures
            match outcome {
                Err(e) => r matches Err(f) && f@ == ErrorView::PluginHeaders(e@),
                Ok(_) => r matches Ok(p) && p == self.prepared,
            },
    {
        match outcome {
            Err(e) => Err(LootError::PluginHeaders(e)),
            Ok(_) => Ok(self.prepared),
        }
    }
}

/// What libloot and the file system answer to the steps up to the point at which the additional
/// directories are set.
#[derive(Debug)]
pub struct SetupAnswers {
    pub opened: Result<(), String>,
    /// Looked at only where mods are asked for.
    pub modlist: ModlistRead,
    /// Which directories each enabled mod has.
    pub mod_dirs: Vec<ModDirFacts>,
    /// Looked at only where there are additional directories.
    pub paths_set: Result<(), String>,
}

/// What libloot and the file system answer when the lists are loaded.
#[derive(Debug)]
pub struct ListAnswers {
    pub layout: LayoutFacts,
    pub shared_prelude_exists: bool,
    pub facts: ListFacts,
    pub masterlist: Result<(), String>,
    /// Looked at only where there is a userlist.
    pub userlist: Result<(), String>,
    pub userlist_exists_after: bool,
}

/// What libloot and the file system answer when the load order and the plugins are loaded.
#[derive(Debug)]
pub struct OrderAnswers {
    pub state: Result<(), String>,
    pub load_order: Vec<String>,
    /// The additional directories that the game has by itself. They are looked at only where none
    /// were set.
    pub own_directories: Vec<JoinedPath>,
    /// The files in each directory that is indexed.
    pub listings: Vec<Vec<String>>,
    /// Which of the files to look for exist, for each plugin.
    pub found: Vec<Vec<bool>>,
    pub headers: Result<(), String>,
}

/// The additional directories of a request, or why they are not known.
pub open spec fn requested_paths(
    req: EvalRequest,
    modlist: ModlistRead,
    mod_dirs: Seq<ModDirFacts>,
) -> Result<Seq<PathView>, ErrorView> {
    let listed = opt_texts(req.additional_data_paths);
    match scan_wanted(opt_text(req.mo2_mods_path), opt_text(req.game_local_path)) {
        Err(e) => Err(e),
        Ok(None) => Ok(additional_paths(listed, Seq::empty())),
        Ok(Some(scan)) => match modlist_outcome(scan.profile_dir, modlist) {
            Err(e) => Err(e),
            Ok(names) => Ok(
                additional_paths(
                    listed,
                    mod_roots(scan.mods_root, names, facts_for(mod_dirs, names.len())),
                ),
            ),
        },
    }
}

/// The game and the additional directories that a request ends up with, or the first failure on
/// the way there.
pub open spec fn setup_outcome(req: EvalRequest, a: SetupAnswers) -> Result<
    (GameType, Seq<PathView>),
    ErrorView,
> {
    match parsed_game_type(req.game_type@) {
        Err(e) => Err(e),
        Ok(g) => if let Err(e) = a.opened {
            Err(ErrorView::GameInit(e@))
        } else {
            match requested_paths(req, a.modlist, a.mod_dirs@) {
                Err(e) => Err(e),
                Ok(paths) => if paths.len() > 0 && a.paths_set is Err {
                    Err(ErrorView::AdditionalDataPaths(a.paths_set->Err_0@))
                } else {
                    Ok((g, paths))
                },
            }
        },
    }
}

/// Runs the steps up to the point at which the additional directories are set.
pub fn set_up<'a>(req: &'a EvalRequest, a: SetupAnswers) -> (r: Result<Configured<'a>, LootError>)
    ensures
        match setup_outcome(*req, a) {
            Ok((g, paths)) => r matches Ok(s) && s.req == req && s.game_type == g && path_views(
                s.additional@,
            ) == paths,
            Err(e) => r matches Err(f) && f@ == e,
        },
{
    let opening = match GameOpening::plan(req) {
        Ok(s) => s,
        Err(e) => {
            return Err(e);
        },
    };
    let setting = match opening.opened(a.opened) {
        Err(e) => {
            return Err(e);
        },
        Ok(PathCollection::Known(s)) => s,
        Ok(PathCollection::Mods(reading)) => match reading.read(a.modlist) {
            Err(e) => {
                return Err(e);
            },
            Ok(probing) => {
                assert(texts(probing.enabled@).len() == probing.enabled@.len());
                probing.probed(&a.mod_dirs)
            },
        },
    };
    assert(path_views(setting.additional@).len() == setting.additional@.len());
    setting.set(a.paths_set)
}

/// Why the load order cannot be had from libloadorder once the game is set up.
pub open spec fn library_failure(
    state: Result<(), String>,
    ambiguous: Result<bool, String>,
) -> Option<ErrorView> {
    if let Err(e) = state {
        Some(ErrorView::LoadOrderState(e@))
    } else if let Err(e) = ambiguous {
        Some(ErrorView::Ambiguity(e@))
    } else {
        None
    }
}

/// Reads the load order through libloadorder: the whole way, given all answers. The first failure
/// on the way ends it.
pub fn run_read_load_order_via_libloadorder(
    req: &EvalRequest,
    a: SetupAnswers,
    state: Result<(), String>,
    ambiguous: Result<bool, String>,
    load_order: Vec<String>,
) -> (r: Result<LoadOrderReadResponse, LootError>)
    ensures
        match setup_outcome(*req, a) {
            Err(e) => r matches Err(f) && f@ == e,
            Ok(_) => match library_failure(state, ambiguous) {
                Some(e) => r matches Err(f) && f@ == e,
                None => r matches Ok(out) && answers_from_library(
                    out,
                    LibraryOrder { load_order, ambiguous: ambiguous->Ok_0 },
                ),
            },
        },
{
    let setup = match set_up(req, a) {
        Ok(s) => s,
        Err(e) => {
            return Err(e);
        },
    };
    match setup.library_order(state, ambiguous, load_order) {
        Ok(order) => Ok(library_order_response(order)),
        Err(e) => Err(e),
    }
}

/// Why the lists cannot be loaded: the first failure.
pub open spec fn lists_failure(req: EvalRequest, a: ListAnswers) -> Option<ErrorView> {
    if a.facts.lock_poisoned {
        Some(ErrorView::DatabaseLock)
    } else if !a.facts.masterlist_exists {
        Some(ErrorView::MasterlistNotFound(masterlist_text(req, a.facts.masterlist_shown@)))
    } else if let Err(e) = a.masterlist {
        Some(
            if a.facts.prelude_exists {
                ErrorView::MasterlistWithPrelude(e@)
            } else {
                ErrorView::Masterlist(e@)
            },
        )
    } else if a.facts.userlist_exists && a.userlist is Err {
        Some(ErrorView::Userlist(a.userlist->Err_0@))
    } else {
        None
    }
}

/// Why the load order or the plugins cannot be loaded: the first failure.
pub open spec fn order_failure(a: OrderAnswers) -> Option<ErrorView> {
    if let Err(e) = a.state {
        Some(ErrorView::LoadOrderState(e@))
    } else if a.load_order@.len() == 0 {
        Some(ErrorView::EmptyLoadOrder)
    } else if let Err(e) = a.headers {
        Some(ErrorView::PluginHeaders(e@))
    } else {
        None
    }
}

/// Why a game cannot be prepared: the first failure.
pub open spec fn prepare_failure(
    req: EvalRequest,
    setup: SetupAnswers,
    lists: ListAnswers,
    order: OrderAnswers,
) -> Option<ErrorView> {
    if let Err(e) = setup_outcome(req, setup) {
        Some(e)
    } else if lists_failure(req, lists) is Some {
        lists_failure(req, lists)
    } else {
        order_failure(order)
    }
}

/// A game that was prepared, and what was handed to libloot on the way.
#[derive(Debug)]
pub struct Preparation {
    pub prepared: PreparedEval,
    /// The additional directories that were set.
    pub additional: Vec<JoinedPath>,
    pub masterlist: JoinedPath,
    pub prelude: JoinedPath,
    pub userlist: JoinedPath,
    /// The plugins, in the order of the load order.
    pub plugin_paths: Vec<JoinedPath>,
}

/// What was handed to libloot to prepare a game, and what is known of the game.
pub open spec fn is_preparation(
    p: Preparation,
    req: EvalRequest,
    default_root: Seq<char>,
    setup: (GameType, Seq<PathView>),
    lists: ListAnswers,
    order: OrderAnswers,
) -> bool {
    let (g, additional) = setup;
    let dir = request_game_dir(req, g, default_root, lists.layout);
    let searched = searched_directories(additional, path_views(order.own_directories@));
    let main = data_root(g, req.game_path@);
    &&& path_views(p.additional@) == additional
    &&& p.masterlist@ == path_given_or(
        opt_text(req.masterlist_path),
        dir.join("masterlist.yaml"@),
    )
    &&& p.prelude@ == path_given_or(
        opt_text(req.prelude_path),
        if lists.shared_prelude_exists {
            shared_prelude(request_root(req, default_root))
        } else {
            dir.join("prelude.yaml"@)
        },
    )
    &&& p.userlist@ == path_given_or(opt_text(req.userlist_path), dir.join("userlist.yaml"@))
    &&& p.plugin_paths@.len() == order.load_order@.len()
    &&& forall|i: int|
        0 <= i < p.plugin_paths@.len() ==> (#[trigger] p.plugin_paths@[i])@ == plugin_path(
            g,
            main,
            searched,
            order.load_order@[i]@,
            indexed(indexed_directories(g, main, searched), order.listings@),
            answers_for(order.found@, i),
        )
    &&& p.prepared.current == order.load_order
    &&& p.prepared.masterlist_path_str@ == masterlist_text(req, lists.facts.masterlist_shown@)
    &&& given(opt_text(req.masterlist_path)) matches Some(t) ==> p.prepared.masterlist_path_str@
        == t && p.masterlist@ == path_at(t)
    &&& p.prepared.prelude_loaded == lists.facts.prelude_exists
    &&& p.prepared.userlist_loaded == lists.userlist_exists_after
}

/// Prepares a game: the whole way, given all answers. The first failure on the way ends it, and a
/// game that is prepared has plugins.
pub fn prepare_eval_game_inner(
    req: &EvalRequest,
    default_root: &str,
    setup: SetupAnswers,
    lists: ListAnswers,
    order: OrderAnswers,
) -> (r: Result<Preparation, LootError>)
    ensures
        match prepare_failure(*req, setup, lists, order) {
            Some(e) => r matches Err(f) && f@ == e,
            None => r matches Ok(p) && p.prepared.current@.len() > 0 && is_preparation(
                p,
                *req,
                default_root@,
                setup_outcome(*req, setup)->Ok_0,
                lists,
                order,
            ),
        },
{
    let configured = match set_up(req, setup) {
        Ok(s) => s,
        Err(e) => {
            return Err(e);
        },
    };
    let loading = configured.choose_lists(
        default_root,
        lists.layout,
        lists.shared_prelude_exists,
    );
    let masterlist = loading.masterlist.copy();
    let prelude = loading.prelude.copy();
    let userlist = loading.userlist.copy();
    let checked = match loading.check(lists.facts) {
        Ok(s) => s,
        Err(e) => {
            return Err(e);
        },
    };
    let ordering = match checked.loaded(
        lists.masterlist,
        lists.userlist,
        lists.userlist_exists_after,
    ) {
        Ok(s) => s,
        Err(e) => {
            return Err(e);
        },
    };
    let locating = match ordering.ordered(order.state, order.load_order, order.own_directories) {
        Ok(s) => s,
        Err(e) => {
            return Err(e);
        },
    };
    let additional = copy_paths(&locating.setup.additional);
    let dirs = locating.directories();
    let index = index_directories(&dirs, &order.listings);
    let headers = locating.located(&index, &order.found);
    let plugin_paths = copy_paths(&headers.paths);
    assert(path_views(plugin_paths@).len() == plugin_paths@.len());
    assert forall|i: int| 0 <= i < plugin_paths@.len() implies (#[trigger] plugin_paths@[i])@
        == headers.paths@[i]@ by {
        assert(path_views(plugin_paths@)[i] == path_views(headers.paths@)[i]);
    }
    match headers.loaded(order.headers) {
        Ok(prepared) => Ok(
            Preparation { prepared, additional, masterlist, prelude, userlist, plugin_paths },
        ),
        Err(e) => Err(e),
    }
}

/// The directories that a request adds win over those after them and over the game's own: a plugin
/// that one of the first `n` of them has is loaded from there. This is so for all games that are not
/// searched file by file.
pub proof fn law_added_directories_win(
    p: Preparation,
    req: EvalRequest,
    default_root: Seq<char>,
    g: GameType,
    additional: Seq<PathView>,
    lists: ListAnswers,
    order: OrderAnswers,
    n: int,
    i: int,
)
    requires
        is_preparation(p, req, default_root, (g, additional), lists, order),
        g != GameType::OpenMW,
        g != GameType::Starfield,
        0 <= n <= additional.len(),
        0 <= i < order.load_order@.len(),
        indexed(additional.take(n), order.listings@).contains_key(
            lowered(order.load_order@[i]@),
        ),
    ensures
        p.plugin_paths@[i]@ == indexed(additional.take(n), order.listings@)[lowered(
            order.load_order@[i]@,
        )],
{
    let main = data_root(g, req.game_path@);
    assert(additional.len() > 0) by {
        if additional.len() == 0 {
            assert(additional.take(n).len() == 0);
        }
    }
    law_plugins_come_from_the_first_directory(
        g,
        main,
        additional,
        order.listings@,
        order.load_order@[i]@,
        answers_for(order.found@, i),
        n,
    );
    assert(p.plugin_paths@[i]@ == plugin_path(
        g,
        main,
        additional,
        order.load_order@[i]@,
        indexed(indexed_directories(g, main, additional), order.listings@),
        answers_for(order.found@, i),
    ));
}

/// Setting up a game succeeds exactly where the game is known and opens, its additional directories
/// are known, and handing them over, if there are any, succeeds; it ends with that game and those
/// directories. Otherwise the first of these that fails is the failure.
pub proof fn law_setting_up(req: EvalRequest, a: SetupAnswers)
    ensures
        ({
            let game = parsed_game_type(req.game_type@);
            let paths = requested_paths(req, a.modlist, a.mod_dirs@);
            let r = setup_outcome(req, a);
            let refused = paths is Ok && paths->Ok_0.len() > 0 && a.paths_set is Err;
            &&& r is Ok <==> game is Ok && a.opened is Ok && paths is Ok && !refused
            &&& r matches Ok((g, additional)) ==> g == game->Ok_0 && additional == paths->Ok_0
            &&& game is Err ==> r->Err_0 == ErrorView::UnknownGameType(req.game_type@)
            &&& game is Ok && a.opened is Err ==> r->Err_0 == ErrorView::GameInit(
                a.opened->Err_0@,
            )
            &&& game is Ok && a.opened is Ok && paths is Err ==> r->Err_0 == paths->Err_0
            &&& game is Ok && a.opened is Ok && refused ==> r->Err_0
                == ErrorView::AdditionalDataPaths(a.paths_set->Err_0@)
        }),
{
}

/// The additional directories of a request that gives no mods folder are those that it lists; where
/// it gives one, those of the mods that its profile enables come after them. The profile and its
/// list of mods count only where a mods folder is given, and are then needed.
pub proof fn law_additional_directories(
    req: EvalRequest,
    modlist: ModlistRead,
    mod_dirs: Seq<ModDirFacts>,
)
    ensures
        ({
            let listed = match req.additional_data_paths {
                Some(v) => listed_paths(texts(v@)),
                None => Seq::empty(),
            };
            let folder = given(opt_text(req.mo2_mods_path));
            let profile = given(opt_text(req.game_local_path));
            let r = requested_paths(req, modlist, mod_dirs);
            &&& folder is None ==> r is Ok && r->Ok_0 == listed
            &&& folder is Some && profile is None ==> r is Err && r->Err_0
                == ErrorView::ProfileRequiredForMods
            &&& folder is Some && profile is Some ==> match modlist {
                ModlistRead::NotAFile => r is Err && r->Err_0 == ErrorView::ModlistNotFound(
                    profile->0,
                ),
                ModlistRead::Unreadable { path, cause } => r is Err && r->Err_0
                    == (ErrorView::ReadFailed { path: path@, cause: cause@ }),
                ModlistRead::Text(t) => r is Ok && r->Ok_0 == listed + mod_roots(
                    folder->0,
                    enabled_mods(t@),
                    facts_for(mod_dirs, enabled_mods(t@).len()),
                ),
            }
        }),
{
    let listed = opt_texts(req.additional_data_paths);
    assert(additional_paths(listed, Seq::empty()) =~= match req.additional_data_paths {
        Some(v) => listed_paths(texts(v@)),
        None => Seq::empty(),
    });
    if let ModlistRead::Text(t) = modlist {
        let roots = mod_roots(
            given(opt_text(req.mo2_mods_path))->0,
            enabled_mods(t@),
            facts_for(mod_dirs, enabled_mods(t@).len()),
        );
        assert(additional_paths(listed, roots) =~= match req.additional_data_paths {
            Some(v) => listed_paths(texts(v@)),
            None => Seq::empty(),
        } + roots);
    }
}

/// Loading the lists fails exactly where the database is locked, the masterlist is not there or does
/// not load, or the userlist is there and does not load. The first of these is the failure, and it
/// says which lists were being loaded.
pub proof fn law_loading_lists(req: EvalRequest, a: ListAnswers)
    ensures
        ({
            let f = lists_failure(req, a);
            let ready = !a.facts.lock_poisoned && a.facts.masterlist_exists;
            &&& f is None <==> ready && a.masterlist is Ok && (a.facts.userlist_exists
                ==> a.userlist is Ok)
            &&& a.facts.lock_poisoned ==> f == Some(ErrorView::DatabaseLock)
            &&& !a.facts.lock_poisoned && !a.facts.masterlist_exists ==> f == Some(
                ErrorView::MasterlistNotFound(
                    match given(opt_text(req.masterlist_path)) {
                        Some(path) => path,
                        None => a.facts.masterlist_shown@,
                    },
                ),
            )
            &&& ready && a.facts.prelude_exists ==> (a.masterlist matches Err(e) ==> f == Some(
                ErrorView::MasterlistWithPrelude(e@),
            ))
            &&& ready && !a.facts.prelude_exists ==> (a.masterlist matches Err(e) ==> f == Some(
                ErrorView::Masterlist(e@),
            ))
            &&& ready && a.masterlist is Ok && a.facts.userlist_exists ==> (a.userlist matches Err(
                e,
            ) ==> f == Some(ErrorView::Userlist(e@)))
        }),
{
}

/// Loading the load order and its plugins fails exactly where the state or the headers do not load
/// or where there is no plugin; the first of these is the failure.
pub proof fn law_loading_plugins(a: OrderAnswers)
    ensures
        order_failure(a) is None <==> a.state is Ok && a.load_order@.len() > 0 && a.headers is Ok,
        a.state matches Err(e) ==> order_failure(a) == Some(ErrorView::LoadOrderState(e@)),
        a.state is Ok && a.load_order@.len() == 0 ==> order_failure(a) == Some(
            ErrorView::EmptyLoadOrder,
        ),
        a.state is Ok && a.load_order@.len() > 0 ==> (a.headers matches Err(e) ==> order_failure(a)
            == Some(ErrorView::PluginHeaders(e@))),
{
}

/// A game is prepared exactly where it is set up, its lists load and its plugins load; what fails
/// first is the failure.
pub proof fn law_preparing(
    req: EvalRequest,
    setup: SetupAnswers,
    lists: ListAnswers,
    order: OrderAnswers,
)
    ensures
        prepare_failure(req, setup, lists, order) is None <==> setup_outcome(req, setup) is Ok
            && lists_failure(req, lists) is None && order_failure(order) is None,
        setup_outcome(req, setup) matches Err(e) ==> prepare_failure(req, setup, lists, order)
            == Some(e),
        setup_outcome(req, setup) is Ok ==> (lists_failure(req, lists) matches Some(e)
            ==> prepare_failure(req, setup, lists, order) == Some(e)),
        setup_outcome(req, setup) is Ok && lists_failure(req, lists) is None ==> (order_failure(
            order,
        ) matches Some(e) ==> prepare_failure(req, setup, lists, order) == Some(e)),
{
}

/// The load order is had from libloadorder exactly where its state loads and it can be told whether
/// it is ambiguous; what fails first is the failure.
pub proof fn law_asking_the_library(state: Result<(), String>, ambiguous: Result<bool, String>)
    ensures
        library_failure(state, ambiguous) is None <==> state is Ok && ambiguous is Ok,
        state matches Err(e) ==> library_failure(state, ambiguous) == Some(
            ErrorView::LoadOrderState(e@),
        ),
        state is Ok ==> (ambiguous matches Err(e) ==> library_failure(state, ambiguous) == Some(
            ErrorView::Ambiguity(e@),
        )),
{
}

/// Which data root, which masterlist text and which directories count: what the request gives, and
/// only without it the default.
pub proof fn law_what_counts(
    req: EvalRequest,
    default_root: Seq<char>,
    shown: Seq<char>,
    additional: Seq<PathView>,
    own: Seq<PathView>,
)
    ensures
        given(opt_text(req.loot_data_path)) is None ==> request_root(req, default_root)
            == default_root,
        given(opt_text(req.loot_data_path)) matches Some(root) ==> request_root(req, default_root)
            == root,
        given(opt_text(req.masterlist_path)) is None ==> masterlist_text(req, shown) == shown,
        given(opt_text(req.masterlist_path)) matches Some(path) ==> masterlist_text(req, shown)
            == path,
        additional.len() > 0 ==> searched_directories(additional, own) == additional,
        additional.len() == 0 ==> searched_directories(additional, own) == own,
{
}

/// What a prepared game holds: its load order, all additional directories, and the lists that the
/// request gives, or else those of the game, with the names that LOOT gives them; whether lists were
/// loaded is what was found of them.
pub proof fn law_prepared_game(
    p: Preparation,
    req: EvalRequest,
    default_root: Seq<char>,
    g: GameType,
    additional: Seq<PathView>,
    lists: ListAnswers,
    order: OrderAnswers,
)
    requires
        is_preparation(p, req, default_root, (g, additional), lists, order),
    ensures
        path_views(p.additional@) == additional,
        p.prepared.current == order.load_order,
        p.prepared.prelude_loaded == lists.facts.prelude_exists,
        p.prepared.userlist_loaded == lists.userlist_exists_after,
        given(opt_text(req.masterlist_path)) is None ==> p.prepared.masterlist_path_str@
            == lists.facts.masterlist_shown@,
        given(opt_text(req.masterlist_path)) matches Some(t) ==> p.prepared.masterlist_path_str@
            == t,
        p.plugin_paths@.len() == order.load_order@.len(),
        ({
            let dir = request_game_dir(req, g, default_root, lists.layout);
            &&& p.masterlist@ == match given(opt_text(req.masterlist_path)) {
                Some(path) => path_at(path),
                None => dir.join("masterlist.yaml"@),
            }
            &&& p.userlist@ == match given(opt_text(req.userlist_path)) {
                Some(path) => path_at(path),
                None => dir.join("userlist.yaml"@),
            }
            &&& given(opt_text(req.prelude_path)) is None && !lists.shared_prelude_exists
                ==> p.prelude@ == dir.join("prelude.yaml"@)
        }),
        given(opt_text(req.prelude_path)) matches Some(path) ==> p.prelude@ == path_at(path),
        given(opt_text(req.prelude_path)) is None && lists.shared_prelude_exists ==> p.prelude@.base
            == given_or(opt_text(req.loot_data_path), default_root) && p.prelude@.parts
            == seq!["prelude"@, "prelude.yaml"@],
{
    law_layout_paths(request_root(req, default_root), Seq::empty());
}

/// Each plugin of a prepared game is loaded from where it is located, in the order of the load
/// order: in the main directory of the game and in the additional ones, or those that the game has
/// by itself where none were set.
pub proof fn law_prepared_plugins(
    p: Preparation,
    req: EvalRequest,
    default_root: Seq<char>,
    g: GameType,
    additional: Seq<PathView>,
    lists: ListAnswers,
    order: OrderAnswers,
    i: int,
)
    requires
        is_preparation(p, req, default_root, (g, additional), lists, order),
        0 <= i < order.load_order@.len(),
    ensures
        ({
            let main = data_root(g, req.game_path@);
            let searched = if additional.len() > 0 {
                additional
            } else {
                path_views(order.own_directories@)
            };
            p.plugin_paths@[i]@ == plugin_path(
                g,
                main,
                searched,
                order.load_order@[i]@,
                indexed(indexed_directories(g, main, searched), order.listings@),
                answers_for(order.found@, i),
            )
        }),
{
}

} // verus!
