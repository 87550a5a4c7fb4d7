//! Keeping a prepared game for the next request that needs the same one.

use crate::errors::{ErrorView, LootError};
use crate::game::{loot_folder, parse_game_type, parsed_game_type, GameType};
use crate::layout::{
    game_dir, game_folder, games_dir, given_or, law_game_directory, layout_probes, legacy_dir,
    list_path, path_given_or, resolve_game_loot_dir, text_given_or, LayoutFacts, LayoutProbes,
};
use crate::paths::{path_at, JoinedPath, PathView};
use crate::request::{opt_texts, EvalRequest};
use crate::text::{given, join_texts, joined, opt_text, same_text, trim, trimmed};
use vstd::prelude::*;

verus! {

/// What the file system says of a path.
#[derive(Debug, Clone, Copy)]
pub struct FileFacts {
    pub exists: bool,
    pub is_file: bool,
    /// The time of the last change, in seconds since the epoch, where it is known.
    pub modified_secs: Option<u64>,
    /// The length in bytes, where it is known.
    pub len: Option<u64>,
}

/// The files whose changes make a prepared game useless.
#[derive(Debug)]
pub struct WatchedFiles {
    pub masterlist: JoinedPath,
    pub userlist: JoinedPath,
    pub loadorder: JoinedPath,
    pub plugins: JoinedPath,
    pub modlist: JoinedPath,
}

/// What the file system says of [`WatchedFiles`].
#[derive(Debug, Clone, Copy)]
pub struct WatchedFacts {
    pub masterlist: FileFacts,
    pub userlist: FileFacts,
    pub loadorder: FileFacts,
    pub plugins: FileFacts,
    pub modlist: FileFacts,
}

/// A number that is zero where it is not known.
pub open spec fn or_zero(n: Option<u64>) -> u64 {
    match n {
        Some(n) => n,
        None => 0,
    }
}

/// The time of a path's last change, or zero.
pub fn path_mtime(f: &FileFacts) -> (r: u64)
    ensures
        r == or_zero(f.modified_secs),
{
    match f.modified_secs {
        Some(n) => n,
        None => 0,
    }
}

/// The length of a path's file, or zero.
pub fn path_len_bytes(f: &FileFacts) -> (r: u64)
    ensures
        r == or_zero(f.len),
{
    match f.len {
        Some(n) => n,
        None => 0,
    }
}

/// What tells prepared games apart: the paths they were made from, and the state of the files
/// that were read.
#[derive(Debug)]
pub struct PrepCacheKey {
    pub game_path: String,
    pub game_local_path: String,
    pub loot_data_path: String,
    pub mo2_mods_path: String,
    pub loot_game_folder: String,
    pub additional_paths_sig: String,
    pub masterlist_mtime: u64,
    pub masterlist_len: u64,
    pub userlist_mtime: u64,
    pub userlist_len: u64,
    pub loadorder_mtime: u64,
    pub loadorder_len: u64,
    pub plugins_mtime: u64,
    pub plugins_len: u64,
    pub modlist_mtime: u64,
    pub modlist_len: u64,
}

/// [`PrepCacheKey`] with its texts as character sequences.
#[verifier::ext_equal]
pub struct KeyView {
    pub game_path: Seq<char>,
    pub game_local_path: Seq<char>,
    pub loot_data_path: Seq<char>,
    pub mo2_mods_path: Seq<char>,
    pub loot_game_folder: Seq<char>,
    pub additional_paths_sig: Seq<char>,
    pub masterlist_mtime: u64,
    pub masterlist_len: u64,
    pub userlist_mtime: u64,
    pub userlist_len: u64,
    pub loadorder_mtime: u64,
    pub loadorder_len: u64,
    pub plugins_mtime: u64,
    pub plugins_len: u64,
    pub modlist_mtime: u64,
    pub modlist_len: u64,
}

impl View for PrepCacheKey {
    type V = KeyView;

    open spec fn view(&self) -> KeyView {
        KeyView {
            game_path: self.game_path@,
            game_local_path: self.game_local_path@,
            loot_data_path: self.loot_data_path@,
            mo2_mods_path: self.mo2_mods_path@,
            loot_game_folder: self.loot_game_folder@,
            additional_paths_sig: self.additional_paths_sig@,
            masterlist_mtime: self.masterlist_mtime,
            masterlist_len: self.masterlist_len,
            userlist_mtime: self.userlist_mtime,
            userlist_len: self.userlist_len,
            loadorder_mtime: self.loadorder_mtime,
            loadorder_len: self.loadorder_len,
            plugins_mtime: self.plugins_mtime,
            plugins_len: self.plugins_len,
            modlist_mtime: self.modlist_mtime,
            modlist_len: self.modlist_len,
        }
    }
}

/// The trimmed text, or nothing where it is absent.
pub open spec fn trimmed_or_empty(o: Option<Seq<char>>) -> Seq<char> {
    match o {
        Some(s) => trimmed(s),
        None => Seq::empty(),
    }
}

/// The trimmed text, or nothing where it is absent.
fn trim_or_empty(o: &Option<String>) -> (r: String)
    ensures
        r@ == trimmed_or_empty(opt_text(*o)),
{
    match o {
        Some(s) => trim(s.as_str()),
        None => String::new(),
    }
}

/// The separator between the additional paths in a key: an ASCII record separator.
pub open spec fn record_separator() -> Seq<char> {
    "\u{1e}"@
}

/// The additional paths of a request as one text.
pub open spec fn paths_signature(listed: Option<Seq<Seq<char>>>) -> Seq<char> {
    match listed {
        Some(v) => joined(v, record_separator()),
        None => Seq::empty(),
    }
}

/// The game's directory in LOOT's data, for a request.
pub open spec fn request_game_dir(
    req: EvalRequest,
    g: GameType,
    default_root: Seq<char>,
    layout: LayoutFacts,
) -> PathView {
    game_dir(
        given_or(opt_text(req.loot_data_path), default_root),
        given_or(opt_text(req.loot_game_folder), loot_folder(g)),
        layout,
    )
}

/// What to look up to find the game's directory in LOOT's data, for a request.
pub fn request_layout_probes(req: &EvalRequest, default_root: &str) -> (r: Result<
    LayoutProbes,
    LootError,
>)
    ensures
        match parsed_game_type(req.game_type@) {
            Ok(g) => {
                let root = given_or(opt_text(req.loot_data_path), default_root@);
                let folder = given_or(opt_text(req.loot_game_folder), loot_folder(g));
                r matches Ok(p) && p.games_masterlist@ == games_dir(root, folder).join(
                    "masterlist.yaml"@,
                ) && p.legacy_masterlist@ == legacy_dir(root, folder).join("masterlist.yaml"@)
                    && p.games_dir@ == path_at(root).join("games"@)
            },
            Err(e) => r matches Err(f) && f@ == e,
        },
{
    match parse_game_type(req.game_type.as_str()) {
        Ok(g) => {
            let root = text_given_or(&req.loot_data_path, default_root);
            let folder = game_folder(&req.loot_game_folder, g);
            Ok(layout_probes(root.as_str(), folder.as_str()))
        },
        Err(e) => Err(e),
    }
}

/// The files to watch for a request. `default_root` is LOOT's data root where the request names
/// none.
pub fn watched_files(req: &EvalRequest, default_root: &str, layout: LayoutFacts) -> (r: Result<
    WatchedFiles,
    LootError,
>)
    ensures
        match r {
            Ok(w) => match parsed_game_type(req.game_type@) {
                Ok(g) => {
                    let dir = request_game_dir(*req, g, default_root@, layout);
                    let profile = path_at(trimmed_or_empty(opt_text(req.game_local_path)));
                    &&& w.masterlist@ == path_given_or(
                        opt_text(req.masterlist_path),
                        dir.join("masterlist.yaml"@),
                    )
                    &&& w.userlist@ == path_given_or(
                        opt_text(req.userlist_path),
                        dir.join("userlist.yaml"@),
                    )
                    &&& w.loadorder@ == profile.join("loadorder.txt"@)
                    &&& w.plugins@ == profile.join("plugins.txt"@)
                    &&& w.modlist@ == profile.join("modlist.txt"@)
                },
                Err(_) => false,
            },
            Err(e) => parsed_game_type(req.game_type@) == Err::<GameType, ErrorView>(e@),
        },
{
    let g = match parse_game_type(req.game_type.as_str()) {
        Ok(g) => g,
        Err(e) => {
            return Err(e);
        },
    };
    let root = text_given_or(&req.loot_data_path, default_root);
    let folder = game_folder(&req.loot_game_folder, g);
    let dir = resolve_game_loot_dir(root.as_str(), folder.as_str(), layout);
    let local = trim_or_empty(&req.game_local_path);
    let profile = JoinedPath::at(local.as_str());
    Ok(
        WatchedFiles {
            masterlist: list_path(&req.masterlist_path, dir.join("masterlist.yaml")),
            userlist: list_path(&req.userlist_path, dir.join("userlist.yaml")),
            loadorder: profile.join("loadorder.txt"),
            plugins: profile.join("plugins.txt"),
            modlist: profile.join("modlist.txt"),
        },
    )
}

/// A file's time counts where it is a file.
pub open spec fn file_mtime(f: FileFacts) -> u64 {
    if f.is_file {
        or_zero(f.modified_secs)
    } else {
        0
    }
}

/// A file's length counts where it is a file.
pub open spec fn file_len(f: FileFacts) -> u64 {
    if f.is_file {
        or_zero(f.len)
    } else {
        0
    }
}

/// The key of the prepared game for a request.
pub open spec fn cache_key(
    req: EvalRequest,
    g: GameType,
    default_root: Seq<char>,
    facts: WatchedFacts,
) -> KeyView {
    KeyView {
        game_path: trimmed(req.game_path@),
        game_local_path: trimmed_or_empty(opt_text(req.game_local_path)),
        loot_data_path: given_or(opt_text(req.loot_data_path), default_root),
        mo2_mods_path: trimmed_or_empty(opt_text(req.mo2_mods_path)),
        loot_game_folder: given_or(opt_text(req.loot_game_folder), loot_folder(g)),
        additional_paths_sig: paths_signature(opt_texts(req.additional_data_paths)),
        masterlist_mtime: or_zero(facts.masterlist.modified_secs),
        masterlist_len: or_zero(facts.masterlist.len),
        userlist_mtime: if facts.userlist.exists {
            or_zero(facts.userlist.modified_secs)
        } else {
            0
        },
        userlist_len: file_len(facts.userlist),
        loadorder_mtime: file_mtime(facts.loadorder),
        loadorder_len: file_len(facts.loadorder),
        plugins_mtime: file_mtime(facts.plugins),
        plugins_len: file_len(facts.plugins),
        modlist_mtime: file_mtime(facts.modlist),
        modlist_len: file_len(facts.modlist),
    }
}

/// Requests that name the same game and the same paths, whitespace round them aside, share their
/// prepared game, whatever they ask to be shown.
pub proof fn law_key_ignores_what_is_shown(
    a: EvalRequest,
    b: EvalRequest,
    g: GameType,
    default_root: Seq<char>,
    facts: WatchedFacts,
)
    requires
        trimmed(a.game_path@) == trimmed(b.game_path@),
        trimmed_or_empty(opt_text(a.game_local_path)) == trimmed_or_empty(
            opt_text(b.game_local_path),
        ),
        given(opt_text(a.loot_data_path)) == given(opt_text(b.loot_data_path)),
        trimmed_or_empty(opt_text(a.mo2_mods_path)) == trimmed_or_empty(
            opt_text(b.mo2_mods_path),
        ),
        given(opt_text(a.loot_game_folder)) == given(opt_text(b.loot_game_folder)),
        paths_signature(opt_texts(a.additional_data_paths)) == paths_signature(
            opt_texts(b.additional_data_paths),
        ),
    ensures
        cache_key(a, g, default_root, facts) == cache_key(b, g, default_root, facts),
{
}

/// Whether a path exists and is a file.
pub open spec fn is_there(f: FileFacts) -> bool {
    f.exists && f.is_file
}

/// Whether a file's time or length differs between two states, as far as a key shows it.
pub open spec fn file_changed(a: FileFacts, b: FileFacts) -> bool {
    file_mtime(a) != file_mtime(b) || file_len(a) != file_len(b)
}

/// A change to the time or the length of one of the lists or of the profile's files makes a new
/// key, so that no game that was prepared before it is used.
pub proof fn law_changes_make_a_new_key(
    req: EvalRequest,
    g: GameType,
    default_root: Seq<char>,
    a: WatchedFacts,
    b: WatchedFacts,
)
    requires
        (is_there(a.masterlist) && is_there(b.masterlist) && file_changed(
            a.masterlist,
            b.masterlist,
        )) || (is_there(a.userlist) && is_there(b.userlist) && file_changed(
            a.userlist,
            b.userlist,
        )) || file_changed(a.loadorder, b.loadorder) || file_changed(a.plugins, b.plugins)
            || file_changed(a.modlist, b.modlist),
    ensures
        cache_key(req, g, default_root, a) != cache_key(req, g, default_root, b),
{
    let x = cache_key(req, g, default_root, a);
    let y = cache_key(req, g, default_root, b);
    if x == y {
        assert(x.masterlist_mtime == y.masterlist_mtime && x.masterlist_len == y.masterlist_len);
        assert(x.userlist_mtime == y.userlist_mtime && x.userlist_len == y.userlist_len);
        assert(x.loadorder_mtime == y.loadorder_mtime && x.loadorder_len == y.loadorder_len);
        assert(x.plugins_mtime == y.plugins_mtime && x.plugins_len == y.plugins_len);
        assert(x.modlist_mtime == y.modlist_mtime && x.modlist_len == y.modlist_len);
    }
}

fn mtime_if(counts: bool, f: &FileFacts) -> (r: u64)
    ensures
        r == if counts {
            or_zero(f.modified_secs)
        } else {
            0
        },
{
    if counts {
        path_mtime(f)
    } else {
        0
    }
}

fn len_if(counts: bool, f: &FileFacts) -> (r: u64)
    ensures
        r == if counts {
            or_zero(f.len)
        } else {
            0
        },
{
    if counts {
        path_len_bytes(f)
    } else {
        0
    }
}

impl PrepCacheKey {
    /// The key of the prepared game for a request, given the state of the files to watch.
    pub fn from_req(req: &EvalRequest, default_root: &str, facts: &WatchedFacts) -> (r: Result<
        PrepCacheKey,
        LootError,
    >)
        ensures
            match r {
                Ok(k) => match parsed_game_type(req.game_type@) {
                    Ok(g) => k@ == cache_key(*req, g, default_root@, *facts),
                    Err(_) => false,
                },
                Err(e) => parsed_game_type(req.game_type@) == Err::<GameType, ErrorView>(e@),
            },
            r matches Ok(k) ==> {
                &&& k.game_path@ == trimmed(req.game_path@)
                &&& k.game_local_path@ == trimmed_or_empty(opt_text(req.game_local_path))
                &&& k.loot_data_path@ == given_or(opt_text(req.loot_data_path), default_root@)
                &&& k.mo2_mods_path@ == trimmed_or_empty(opt_text(req.mo2_mods_path))
                &&& k.additional_paths_sig@ == paths_signature(opt_texts(req.additional_data_paths))
                &&& k.masterlist_mtime == or_zero(facts.masterlist.modified_secs)
                &&& k.masterlist_len == or_zero(facts.masterlist.len)
                &&& facts.userlist.exists ==> k.userlist_mtime == or_zero(
                    facts.userlist.modified_secs,
                )
                &&& !facts.userlist.exists ==> k.userlist_mtime == 0
                &&& k.userlist_len == file_len(facts.userlist)
                &&& k.loadorder_mtime == file_mtime(facts.loadorder)
                &&& k.loadorder_len == file_len(facts.loadorder)
                &&& k.plugins_mtime == file_mtime(facts.plugins)
                &&& k.plugins_len == file_len(facts.plugins)
                &&& k.modlist_mtime == file_mtime(facts.modlist)
                &&& k.modlist_len == file_len(facts.modlist)
            },
    {
        let g = match parse_game_type(req.game_type.as_str()) {
            Ok(g) => g,
            Err(e) => {
                return Err(e);
            },
        };
        let additional_paths_sig = match &req.additional_data_paths {
            Some(v) => join_texts(v, "\u{1e}"),
            None => String::new(),
        };
        let k = PrepCacheKey {
            game_path: trim(req.game_path.as_str()),
            game_local_path: trim_or_empty(&req.game_local_path),
            loot_data_path: text_given_or(&req.loot_data_path, default_root),
            mo2_mods_path: trim_or_empty(&req.mo2_mods_path),
            loot_game_folder: game_folder(&req.loot_game_folder, g),
            additional_paths_sig,
            masterlist_mtime: path_mtime(&facts.masterlist),
            masterlist_len: path_len_bytes(&facts.masterlist),
            userlist_mtime: mtime_if(facts.userlist.exists, &facts.userlist),
            userlist_len: len_if(facts.userlist.is_file, &facts.userlist),
            loadorder_mtime: mtime_if(facts.loadorder.is_file, &facts.loadorder),
            loadorder_len: len_if(facts.loadorder.is_file, &facts.loadorder),
            plugins_mtime: mtime_if(facts.plugins.is_file, &facts.plugins),
            plugins_len: len_if(facts.plugins.is_file, &facts.plugins),
            modlist_mtime: mtime_if(facts.modlist.is_file, &facts.modlist),
            modlist_len: len_if(facts.modlist.is_file, &facts.modlist),
        };
        assert(k@ =~= cache_key(*req, g, default_root@, *facts));
        Ok(k)
    }

    /// Whether two keys are the same.
    pub fn same(&self, other: &PrepCacheKey) -> (r: bool)
        ensures
            r == (self@ == other@),
            r ==> self.game_path@ == other.game_path@ && self.game_local_path@
                == other.game_local_path@ && self.loot_data_path@ == other.loot_data_path@
                && self.mo2_mods_path@ == other.mo2_mods_path@ && self.loot_game_folder@
                == other.loot_game_folder@ && self.additional_paths_sig@
                == other.additional_paths_sig@,
    {
        let texts_same = same_text(self.game_path.as_str(), other.game_path.as_str()) && same_text(
            self.game_local_path.as_str(),
            other.game_local_path.as_str(),
        ) && same_text(self.loot_data_path.as_str(), other.loot_data_path.as_str()) && same_text(
            self.mo2_mods_path.as_str(),
            other.mo2_mods_path.as_str(),
        ) && same_text(self.loot_game_folder.as_str(), other.loot_game_folder.as_str())
            && same_text(
            self.additional_paths_sig.as_str(),
            other.additional_paths_sig.as_str(),
        );
        texts_same && self.masterlist_mtime == other.masterlist_mtime && self.masterlist_len
            == other.masterlist_len && self.userlist_mtime == other.userlist_mtime
            && self.userlist_len == other.userlist_len && self.loadorder_mtime
            == other.loadorder_mtime && self.loadorder_len == other.loadorder_len
            && self.plugins_mtime == other.plugins_mtime && self.plugins_len == other.plugins_len
            && self.modlist_mtime == other.modlist_mtime && self.modlist_len == other.modlist_len
    }
}

/// A prepared game that is kept, with its key and the time at which it was made.
pub struct PrepCacheEntry<P> {
    pub key: PrepCacheKey,
    pub prep: P,
    /// Nanoseconds on the clock by which all times of the cache are taken.
    pub cached_at: u128,
}

/// The place for one prepared game.
pub struct PrepCache<P> {
    pub entry: Option<PrepCacheEntry<P>>,
}

/// The kept entry, with its key as character sequences.
pub struct EntryView<P> {
    pub key: KeyView,
    pub prep: P,
    pub cached_at: u128,
}

impl<P> View for PrepCache<P> {
    type V = Option<EntryView<P>>;

    open spec fn view(&self) -> Option<EntryView<P>> {
        match self.entry {
            Some(e) => Some(EntryView { key: e.key@, prep: e.prep, cached_at: e.cached_at }),
            None => None,
        }
    }
}

/// Whether an entry may still be used: for ever without a lifetime, and otherwise for less than
/// `ttl` seconds. A clock that went back counts as no time having passed.
pub open spec fn is_fresh(cached_at: u128, now: u128, ttl: Option<u64>) -> bool {
    match ttl {
        None => true,
        Some(secs) => {
            let elapsed: int = if now < cached_at {
                0
            } else {
                now - cached_at
            };
            elapsed < secs * 1_000_000_000
        },
    }
}

/// Whether an entry may still be used.
pub fn prep_cache_entry_fresh(cached_at: u128, now: u128, ttl: Option<u64>) -> (r: bool)
    ensures
        r == is_fresh(cached_at, now, ttl),
{
    match ttl {
        None => true,
        Some(secs) => {
            let elapsed: u128 = if now < cached_at {
                0
            } else {
                now - cached_at
            };
            elapsed < (secs as u128) * 1_000_000_000
        },
    }
}

/// What looking for a prepared game gives.
pub enum PrepLookup<'a, P> {
    Hit(&'a P),
    /// The game is there but too old.
    Expired,
    Absent,
}

/// How a request came by its prepared game.
#[derive(Debug, Clone, Copy, PartialEq, Eq, Structural)]
pub enum PrepCacheTag {
    Disabled,
    Hit,
    Miss,
}

/// The word for how a request came by its prepared game.
pub open spec fn tag_word(t: PrepCacheTag) -> Seq<char> {
    match t {
        PrepCacheTag::Disabled => "disabled"@,
        PrepCacheTag::Hit => "hit"@,
        PrepCacheTag::Miss => "miss"@,
    }
}

impl PrepCacheTag {
    /// The word for how a request came by its prepared game.
    pub fn word(&self) -> (r: String)
        ensures
            r@ == tag_word(*self),
    {
        match self {
            PrepCacheTag::Disabled => "disabled".to_owned(),
            PrepCacheTag::Hit => "hit".to_owned(),
            PrepCacheTag::Miss => "miss".to_owned(),
        }
    }
}

/// The prepared game that is kept for a key and still fresh.
pub open spec fn usable<P>(
    entry: Option<EntryView<P>>,
    key: KeyView,
    now: u128,
    ttl: Option<u64>,
) -> Option<P> {
    match entry {
        Some(e) => if e.key == key && is_fresh(e.cached_at, now, ttl) {
            Some(e.prep)
        } else {
            None
        },
        None => None,
    }
}

impl<P> PrepCache<P> {
    pub fn new() -> (r: PrepCache<P>)
        ensures
            r@ is None,
    {
        PrepCache { entry: None }
    }

    /// Looks for a prepared game before one is made.
    pub fn lookup<'a>(&'a self, key: &PrepCacheKey, now: u128, ttl: Option<u64>) -> (r: PrepLookup<
        'a,
        P,
    >)
        ensures
            match r {
                PrepLookup::Hit(p) => usable(self@, key@, now, ttl) == Some(*p),
                PrepLookup::Expired => usable(self@, key@, now, ttl) is None && self@ is Some
                    && self@->0.key == key@,
                PrepLookup::Absent => self@ is None || self@->0.key != key@,
            },
    {
        match &self.entry {
            Some(e) => if e.key.same(key) {
                if prep_cache_entry_fresh(e.cached_at, now, ttl) {
                    PrepLookup::Hit(&e.prep)
                } else {
                    PrepLookup::Expired
                }
            } else {
                PrepLookup::Absent
            },
            None => PrepLookup::Absent,
        }
    }

    /// Keeps a game that was just prepared, unless another request has kept one for the same key
    /// in the meantime, which is then the one to use.
    pub fn settle(&mut self, key: PrepCacheKey, prep: P, now: u128, ttl: Option<u64>) -> (r:
        PrepCacheTag)
        ensures
            r == if usable(old(self)@, key@, now, ttl) is Some {
                PrepCacheTag::Hit
            } else {
                PrepCacheTag::Miss
            },
            final(self)@ == if usable(old(self)@, key@, now, ttl) is Some {
                old(self)@
            } else {
                Some(EntryView { key: key@, prep, cached_at: now })
            },
    {
        let reuse = match &self.entry {
            Some(e) => e.key.same(&key) && prep_cache_entry_fresh(e.cached_at, now, ttl),
            None => false,
        };
        if reuse {
            PrepCacheTag::Hit
        } else {
            self.entry = Some(PrepCacheEntry { key, prep, cached_at: now });
            PrepCacheTag::Miss
        }
    }

    /// The prepared game that is kept.
    pub fn current(&self) -> (r: Option<&P>)
        ensures
            match r {
                Some(p) => self@ is Some && *p == self@->0.prep,
                None => self@ is None,
            },
    {
        match &self.entry {
            Some(e) => Some(&e.prep),
            None => None,
        }
    }
}

/// The tag of a call that used no kept game.
pub open spec fn unkept_tag(enabled: bool) -> PrepCacheTag {
    if enabled {
        PrepCacheTag::Miss
    } else {
        PrepCacheTag::Disabled
    }
}

/// The tag of a call that used no kept game, because none was prepared for it or because nothing
/// is kept at all.
pub fn tag_without_hit(enabled: bool) -> (r: PrepCacheTag)
    ensures
        r == unkept_tag(enabled),
{
    if enabled {
        PrepCacheTag::Miss
    } else {
        PrepCacheTag::Disabled
    }
}

/// Looks for a prepared game before one is made; nothing is found where nothing is kept.
pub fn prep_lookup<'a, P>(
    cache: &'a PrepCache<P>,
    enabled: bool,
    key: &PrepCacheKey,
    now: u128,
    ttl: Option<u64>,
) -> (r: PrepLookup<'a, P>)
    ensures
        !enabled ==> r is Absent,
        enabled ==> match r {
            PrepLookup::Hit(p) => usable(cache@, key@, now, ttl) == Some(*p),
            PrepLookup::Expired => usable(cache@, key@, now, ttl) is None && cache@ is Some
                && cache@->0.key == key@,
            PrepLookup::Absent => cache@ is None || cache@->0.key != key@,
        },
{
    if enabled {
        cache.lookup(key, now, ttl)
    } else {
        PrepLookup::Absent
    }
}

/// Ends the preparation of a game. One that failed is not kept, and nothing is kept where keeping
/// is switched off; otherwise the game is kept, unless another request has kept one for the same
/// key in the meantime. The tag says how the call came by its game, also where it failed.
pub fn prep_outcome<P>(
    cache: &mut PrepCache<P>,
    enabled: bool,
    key: PrepCacheKey,
    outcome: Result<P, LootError>,
    now: u128,
    ttl: Option<u64>,
) -> (r: (Result<(), LootError>, PrepCacheTag))
    ensures
        match outcome {
            Ok(_) => r.0 is Ok,
            Err(e) => r.0 matches Err(f) && f@ == e@,
        },
        !enabled || outcome is Err ==> final(cache)@ == old(cache)@,
        !enabled ==> r.1 == PrepCacheTag::Disabled,
        enabled && outcome is Err ==> r.1 == PrepCacheTag::Miss,
        enabled ==> (outcome matches Ok(prep) ==> {
            &&& r.1 == if usable(old(cache)@, key@, now, ttl) is Some {
                PrepCacheTag::Hit
            } else {
                PrepCacheTag::Miss
            }
            &&& final(cache)@ == if usable(old(cache)@, key@, now, ttl) is Some {
                old(cache)@
            } else {
                Some(EntryView { key: key@, prep, cached_at: now })
            }
        }),
{
    match outcome {
        Err(e) => (Err(e), tag_without_hit(enabled)),
        Ok(prep) => {
            let tag = if enabled {
                cache.settle(key, prep, now, ttl)
            } else {
                PrepCacheTag::Disabled
            };
            (Ok(()), tag)
        },
    }
}

/// Without a lifetime a kept game is used for every request with its key, however late, until
/// another one is kept.
pub proof fn law_kept_without_ttl<P>(e: EntryView<P>, now: u128)
    ensures
        usable(Some(e), e.key, now, None) == Some(e.prep),
{
}

/// With a lifetime a kept game is used for requests with its key until that many seconds have
/// passed, and not after.
pub proof fn law_kept_for_its_ttl<P>(e: EntryView<P>, later: u128, secs: u64)
    requires
        e.cached_at <= later,
    ensures
        usable(Some(e), e.key, later, Some(secs)) == if later - e.cached_at < secs
            * 1_000_000_000 {
            Some(e.prep)
        } else {
            None
        },
{
}

/// A kept game is used only for requests with its key.
pub proof fn law_other_keys_miss<P>(e: EntryView<P>, key: KeyView, now: u128, ttl: Option<u64>)
    requires
        key != e.key,
    ensures
        usable(Some(e), key, now, ttl) is None,
{
}

/// A kept game that is too old stays too old as time goes on.
pub proof fn law_expiry_is_final<P>(
    e: EntryView<P>,
    key: KeyView,
    now: u128,
    later: u128,
    ttl: Option<u64>,
)
    requires
        now <= later,
        usable(Some(e), key, now, ttl) is None,
    ensures
        usable(Some(e), key, later, ttl) is None,
{
}

/// The view of a key leaves nothing out: two keys are the same only where they agree in every text
/// and in every number.
pub proof fn law_keys_leave_nothing_out(a: PrepCacheKey, b: PrepCacheKey)
    requires
        a@ == b@,
    ensures
        a.game_path@ == b.game_path@,
        a.game_local_path@ == b.game_local_path@,
        a.loot_data_path@ == b.loot_data_path@,
        a.mo2_mods_path@ == b.mo2_mods_path@,
        a.loot_game_folder@ == b.loot_game_folder@,
        a.additional_paths_sig@ == b.additional_paths_sig@,
        a.masterlist_mtime == b.masterlist_mtime,
        a.masterlist_len == b.masterlist_len,
        a.userlist_mtime == b.userlist_mtime,
        a.userlist_len == b.userlist_len,
        a.loadorder_mtime == b.loadorder_mtime,
        a.loadorder_len == b.loadorder_len,
        a.plugins_mtime == b.plugins_mtime,
        a.plugins_len == b.plugins_len,
        a.modlist_mtime == b.modlist_mtime,
        a.modlist_len == b.modlist_len,
{
    let x = a@;
    let y = b@;
    assert(x.game_path == a.game_path@ && y.game_path == b.game_path@);
    assert(x.game_local_path == a.game_local_path@ && y.game_local_path == b.game_local_path@);
    assert(x.loot_data_path == a.loot_data_path@ && y.loot_data_path == b.loot_data_path@);
    assert(x.mo2_mods_path == a.mo2_mods_path@ && y.mo2_mods_path == b.mo2_mods_path@);
    assert(x.loot_game_folder == a.loot_game_folder@ && y.loot_game_folder == b.loot_game_folder@);
    assert(x.additional_paths_sig == a.additional_paths_sig@ && y.additional_paths_sig
        == b.additional_paths_sig@);
}

/// Requests share their prepared game only where they name the same paths, whitespace round them
/// aside, and the same additional paths, and where they fall back on the same defaults.
pub proof fn law_same_key_same_paths(
    a: EvalRequest,
    b: EvalRequest,
    g: GameType,
    h: GameType,
    default_root: Seq<char>,
    facts: WatchedFacts,
)
    requires
        cache_key(a, g, default_root, facts) == cache_key(b, h, default_root, facts),
    ensures
        trimmed(a.game_path@) == trimmed(b.game_path@),
        trimmed_or_empty(opt_text(a.game_local_path)) == trimmed_or_empty(
            opt_text(b.game_local_path),
        ),
        given_or(opt_text(a.loot_data_path), default_root) == given_or(
            opt_text(b.loot_data_path),
            default_root,
        ),
        trimmed_or_empty(opt_text(a.mo2_mods_path)) == trimmed_or_empty(opt_text(b.mo2_mods_path)),
        given_or(opt_text(a.loot_game_folder), loot_folder(g)) == given_or(
            opt_text(b.loot_game_folder),
            loot_folder(h),
        ),
        paths_signature(opt_texts(a.additional_data_paths)) == paths_signature(
            opt_texts(b.additional_data_paths),
        ),
{
    let x = cache_key(a, g, default_root, facts);
    let y = cache_key(b, h, default_root, facts);
    assert(x.game_path == y.game_path && x.game_local_path == y.game_local_path);
    assert(x.loot_data_path == y.loot_data_path && x.mo2_mods_path == y.mo2_mods_path);
    assert(x.loot_game_folder == y.loot_game_folder);
    assert(x.additional_paths_sig == y.additional_paths_sig);
}

/// The additional paths are put into a key one after the other, as they are given, with a record
/// separator between them.
pub proof fn law_signature_of_paths(v: Seq<Seq<char>>, last: Seq<char>)
    ensures
        paths_signature(None).len() == 0,
        paths_signature(Some(Seq::empty())).len() == 0,
        paths_signature(Some(seq![last])) == last,
        v.len() > 0 ==> paths_signature(Some(v.push(last))) == paths_signature(Some(v))
            + seq!['\u{1e}'] + last,
{
    reveal_strlit("\u{1e}");
    reveal_with_fuel(joined, 2);
    assert(record_separator() =~= seq!['\u{1e}']);
    assert(v.push(last).drop_last() =~= v);
    assert(seq![last].drop_last() =~= Seq::<Seq<char>>::empty());
    assert(paths_signature(Some(seq![last])) =~= last);
}

/// An absent text counts as an empty one and any other as what trimming leaves of it; a number that
/// is not known counts as zero.
pub proof fn law_absent_counts_as_empty(s: Seq<char>, n: u64)
    ensures
        trimmed_or_empty(None).len() == 0,
        trimmed_or_empty(Some(s)) == trimmed(s),
        or_zero(None) == 0,
        or_zero(Some(n)) == n,
{
}

/// What is shown of a file in a key: its time and its length where it is a file and they are known,
/// and otherwise zero.
pub proof fn law_files_in_keys(f: FileFacts, n: u64)
    ensures
        !f.is_file ==> file_mtime(f) == 0 && file_len(f) == 0,
        f.is_file && f.modified_secs == Some(n) ==> file_mtime(f) == n,
        f.is_file && f.modified_secs is None ==> file_mtime(f) == 0,
        f.is_file && f.len == Some(n) ==> file_len(f) == n,
        f.is_file && f.len is None ==> file_len(f) == 0,
{
}

/// The directory of the game in LOOT's data is looked for in the data root that the request names,
/// or the default one, under the folder that the request names, or the game's.
pub proof fn law_directory_of_a_request(
    req: EvalRequest,
    g: GameType,
    default_root: Seq<char>,
    layout: LayoutFacts,
)
    ensures
        ({
            let root = given_or(opt_text(req.loot_data_path), default_root);
            let folder = given_or(opt_text(req.loot_game_folder), loot_folder(g));
            let in_games = layout.games_masterlist || (layout.games_dir
                && !layout.legacy_masterlist);
            let dir = request_game_dir(req, g, default_root, layout);
            &&& dir.base == root
            &&& in_games ==> dir.parts == seq!["games"@, folder]
            &&& !in_games ==> dir.parts == seq![folder]
        }),
{
    law_game_directory(
        given_or(opt_text(req.loot_data_path), default_root),
        given_or(opt_text(req.loot_game_folder), loot_folder(g)),
        layout,
    );
}

/// Where nothing is kept nothing is used, and a game that was kept at a time that is still to come,
/// because the clock went back, is used unless its lifetime is zero seconds.
pub proof fn law_clock_that_went_back<P>(
    e: EntryView<P>,
    key: KeyView,
    now: u128,
    secs: u64,
    ttl: Option<u64>,
)
    ensures
        usable::<P>(None, key, now, ttl) is None,
        now < e.cached_at ==> (usable(Some(e), e.key, now, Some(secs)) is Some <==> secs > 0),
        now < e.cached_at && secs > 0 ==> usable(Some(e), e.key, now, Some(secs)) == Some(e.prep),
{
}

/// The cache shows what it keeps: nothing, or the one game with its key and its time.
pub proof fn law_cache_shows_its_entry<P>(c: PrepCache<P>)
    ensures
        c.entry is None <==> c@ is None,
        c.entry matches Some(e) ==> c@->0.key == e.key@ && c@->0.prep == e.prep && c@->0.cached_at
            == e.cached_at,
{
}

/// The words for how a call came by its prepared game.
pub proof fn law_tag_words(enabled: bool)
    ensures
        tag_word(PrepCacheTag::Disabled) == "disabled"@,
        tag_word(PrepCacheTag::Hit) == "hit"@,
        tag_word(PrepCacheTag::Miss) == "miss"@,
        unkept_tag(enabled) == PrepCacheTag::Miss <==> enabled,
        unkept_tag(enabled) == PrepCacheTag::Disabled <==> !enabled,
{
}

/// What a key shows of the two lists: the time and the length of the masterlist as far as they are
/// known, and those of the userlist where it exists and where it is a file.
pub proof fn law_lists_in_keys(
    req: EvalRequest,
    g: GameType,
    default_root: Seq<char>,
    facts: WatchedFacts,
    n: u64,
)
    ensures
        ({
            let k = cache_key(req, g, default_root, facts);
            &&& facts.masterlist.modified_secs == Some(n) ==> k.masterlist_mtime == n
            &&& facts.masterlist.modified_secs is None ==> k.masterlist_mtime == 0
            &&& facts.masterlist.len == Some(n) ==> k.masterlist_len == n
            &&& facts.masterlist.len is None ==> k.masterlist_len == 0
            &&& facts.userlist.exists && facts.userlist.modified_secs == Some(n)
                ==> k.userlist_mtime == n
            &&& !facts.userlist.exists || facts.userlist.modified_secs is None ==> k.userlist_mtime
                == 0
            &&& facts.userlist.is_file && facts.userlist.len == Some(n) ==> k.userlist_len == n
            &&& !facts.userlist.is_file || facts.userlist.len is None ==> k.userlist_len == 0
        }),
{
}

} // verus!
