//! Finding the files of plugins in the game's own directory and in additional ones.

use crate::game::{data_root, plugins_data_root, GameType};
use crate::paths::{copy_paths, path_at, path_views, JoinedPath, PathView};
use crate::text::{
    ends_with, lowered, take_chars, text_ends_with, texts, to_ascii_lowercase,
};
use vstd::hash_map::StringHashMap;
use vstd::prelude::*;

verus! {

/// Whether a lower case file name ends like that of a plugin.
pub open spec fn has_plugin_extension(n: Seq<char>) -> bool {
    ends_with(n, ".esp"@) || ends_with(n, ".esm"@) || ends_with(n, ".esl"@)
}

/// Whether a lower case file name is that of a plugin with `.ghost` at the end.
pub open spec fn is_ghosted(n: Seq<char>) -> bool {
    ends_with(n, ".esp.ghost"@) || ends_with(n, ".esm.ghost"@) || ends_with(n, ".esl.ghost"@)
}

/// The lower case name under which a plugin file is found: without a `.ghost` at the end. Other
/// files have none.
pub open spec fn index_key(file_name: Seq<char>) -> Option<Seq<char>> {
    let n = lowered(file_name);
    if is_ghosted(n) {
        Some(n.take(n.len() - 6))
    } else if has_plugin_extension(n) {
        Some(n)
    } else {
        None
    }
}

/// The lower case name under which a plugin file is found.
pub fn plugin_file_index_key(file_name: &str) -> (r: Option<String>)
    ensures
        match r {
            Some(k) => index_key(file_name@) == Some(k@),
            None => index_key(file_name@) is None,
        },
        ends_with(lowered(file_name@), ".esp"@) || ends_with(lowered(file_name@), ".esm"@)
            || ends_with(lowered(file_name@), ".esl"@) ==> r is Some && r->0@ == lowered(
            file_name@,
        ),
        ends_with(lowered(file_name@), ".esp.ghost"@) || ends_with(
            lowered(file_name@),
            ".esm.ghost"@,
        ) || ends_with(lowered(file_name@), ".esl.ghost"@) ==> r is Some && r->0@ == lowered(
            file_name@,
        ).take(file_name@.len() - 6),
{
    proof {
        law_plugin_file_names(file_name@);
    }
    let n = to_ascii_lowercase(file_name);
    if text_ends_with(n.as_str(), ".esp.ghost") || text_ends_with(n.as_str(), ".esm.ghost")
        || text_ends_with(n.as_str(), ".esl.ghost") {
        proof {
            reveal_strlit(".esp.ghost");
            reveal_strlit(".esm.ghost");
            reveal_strlit(".esl.ghost");
        }
        let len: usize = n.as_str().unicode_len();
        return Some(take_chars(n.as_str(), len - 6));
    }
    if text_ends_with(n.as_str(), ".esp") || text_ends_with(n.as_str(), ".esm") || text_ends_with(
        n.as_str(),
        ".esl",
    ) {
        return Some(n);
    }
    None
}

/// A ghosted plugin is found under the name that it has without `.ghost`.
pub proof fn law_ghost_key(name: Seq<char>)
    requires
        has_plugin_extension(lowered(name)),
    ensures
        index_key(name + ".ghost"@) == Some(lowered(name)),
        index_key(name) == Some(lowered(name)),
{
    reveal_strlit(".ghost");
    reveal_strlit(".esp");
    reveal_strlit(".esm");
    reveal_strlit(".esl");
    reveal_strlit(".esp.ghost");
    reveal_strlit(".esm.ghost");
    reveal_strlit(".esl.ghost");
    let n = lowered(name);
    let g = lowered(name + ".ghost"@);
    assert(g =~= n + ".ghost"@);
    assert(g.take(g.len() - 6) =~= n);
    let ext = n.skip(n.len() - 4);
    assert(g.skip(g.len() - 10) =~= ext + ".ghost"@);
    assert(".esp"@ + ".ghost"@ =~= ".esp.ghost"@);
    assert(".esm"@ + ".ghost"@ =~= ".esm.ghost"@);
    assert(".esl"@ + ".ghost"@ =~= ".esl.ghost"@);
    assert(is_ghosted(g));
    assert(!is_ghosted(n)) by {
        if is_ghosted(n) {
            assert(n.skip(n.len() - 10)[9] == 't');
            assert(n[n.len() - 1] == 't');
            assert(ext[3] == n[n.len() - 1]);
        }
    }
}

/// The case of ASCII letters makes no difference to the name a plugin is found under.
pub proof fn law_key_ignores_case(a: Seq<char>, b: Seq<char>)
    requires
        lowered(a) == lowered(b),
    ensures
        index_key(a) == index_key(b),
{
}

/// Plugin files by the lower case names of their plugins.
pub struct PluginIndex {
    files: StringHashMap<JoinedPath>,
}

impl View for PluginIndex {
    type V = Map<Seq<char>, PathView>;

    closed spec fn view(&self) -> Map<Seq<char>, PathView> {
        self.files@.map_values(|p: JoinedPath| p@)
    }
}

impl PluginIndex {
    pub fn new() -> (r: PluginIndex)
        ensures
            r@ == Map::<Seq<char>, PathView>::empty(),
    {
        let r = PluginIndex { files: StringHashMap::new() };
        assert(r@ =~= Map::<Seq<char>, PathView>::empty());
        r
    }

    pub fn contains_key(&self, key: &str) -> (r: bool)
        ensures
            r == self@.contains_key(key@),
    {
        self.files.contains_key(key)
    }

    /// The file under a lower case plugin name.
    pub fn get(&self, key: &str) -> (r: Option<&JoinedPath>)
        ensures
            match r {
                Some(p) => self@.contains_key(key@) && p@ == self@[key@],
                None => !self@.contains_key(key@),
            },
    {
        self.files.get(key)
    }

    /// Enters a file under a name that has none yet.
    fn insert_first(&mut self, key: String, file: JoinedPath)
        ensures
            final(self)@ == if old(self)@.contains_key(key@) {
                old(self)@
            } else {
                old(self)@.insert(key@, file@)
            },
    {
        if !self.files.contains_key(key.as_str()) {
            let ghost before = self@;
            let ghost k = key@;
            let ghost f = file@;
            self.files.insert(key, file);
            assert(self@ =~= before.insert(k, f));
        }
    }
}

/// An index after the files of a directory have been entered: a name that is there already keeps
/// the file it has.
pub open spec fn scanned(
    index: Map<Seq<char>, PathView>,
    dir: PathView,
    files: Seq<Seq<char>>,
) -> Map<Seq<char>, PathView>
    decreases files.len(),
{
    if files.len() == 0 {
        index
    } else {
        let m = scanned(index, dir, files.drop_last());
        match index_key(files.last()) {
            Some(k) => if m.contains_key(k) {
                m
            } else {
                m.insert(k, dir.join(files.last()))
            },
            None => m,
        }
    }
}

/// Enters the plugins among `files`, the names of the files in `dir` in the order in which they
/// are listed. What the index holds already stays.
pub fn scan_flat_plugins_into_index(
    dir: &JoinedPath,
    files: &Vec<String>,
    index: &mut PluginIndex,
)
    ensures
        final(index)@ == scanned(old(index)@, dir@, texts(files@)),
{
    let ghost start = index@;
    let ghost all = texts(files@);
    let mut i: usize = 0;
    assert(all.take(0).len() == 0);
    while i < files.len()
        invariant
            i <= files@.len(),
            all == texts(files@),
            index@ == scanned(start, dir@, all.take(i as int)),
        decreases files@.len() - i,
    {
        assert(all.take(i + 1).drop_last() =~= all.take(i as int));
        assert(all.take(i + 1).last() == files@[i as int]@);
        if let Some(key) = plugin_file_index_key(files[i].as_str()) {
            let path = dir.join(files[i].as_str());
            index.insert_first(key, path);
        }
        i += 1;
    }
    assert(all.take(all.len() as int) =~= all);
}

/// The directory that is scanned first wins: scanning another one leaves every name that is known
/// already with the file it has.
pub proof fn law_first_scanned_wins(
    index: Map<Seq<char>, PathView>,
    dir: PathView,
    files: Seq<Seq<char>>,
    key: Seq<char>,
)
    requires
        index.contains_key(key),
    ensures
        scanned(index, dir, files).contains_key(key),
        scanned(index, dir, files)[key] == index[key],
    decreases files.len(),
{
    if files.len() > 0 {
        law_first_scanned_wins(index, dir, files.drop_last(), key);
    }
}

/// Every plugin in a scanned directory is found under its name.
pub proof fn law_scanned_plugins_are_found(
    index: Map<Seq<char>, PathView>,
    dir: PathView,
    files: Seq<Seq<char>>,
    i: int,
)
    requires
        0 <= i < files.len(),
        index_key(files[i]) is Some,
    ensures
        scanned(index, dir, files).contains_key(index_key(files[i])->0),
    decreases files.len(),
{
    if i < files.len() - 1 {
        assert(files.drop_last()[i] == files[i]);
        law_scanned_plugins_are_found(index, dir, files.drop_last(), i);
    }
}

/// The names of the files in the `i`-th directory; none, where the directory was not listed.
pub open spec fn listing_of(listings: Seq<Vec<String>>, i: int) -> Seq<Seq<char>> {
    if i < listings.len() {
        texts(listings[i]@)
    } else {
        Seq::empty()
    }
}

/// The index of some directories, which are scanned from the first to the last.
pub open spec fn indexed(dirs: Seq<PathView>, listings: Seq<Vec<String>>) -> Map<
    Seq<char>,
    PathView,
>
    decreases dirs.len(),
{
    if dirs.len() == 0 {
        Map::empty()
    } else {
        scanned(
            indexed(dirs.drop_last(), listings),
            dirs.last(),
            listing_of(listings, dirs.len() - 1),
        )
    }
}

/// Indexes some directories, given the names of the files in each of them.
pub fn index_directories(dirs: &Vec<JoinedPath>, listings: &Vec<Vec<String>>) -> (r: PluginIndex)
    ensures
        r@ == indexed(path_views(dirs@), listings@),
{
    let mut index = PluginIndex::new();
    let none: Vec<String> = Vec::new();
    let ghost all = path_views(dirs@);
    let mut i: usize = 0;
    assert(texts(none@) =~= Seq::<Seq<char>>::empty());
    assert(all.take(0).len() == 0);
    while i < dirs.len()
        invariant
            i <= dirs@.len(),
            all == path_views(dirs@),
            texts(none@) == Seq::<Seq<char>>::empty(),
            index@ == indexed(all.take(i as int), listings@),
        decreases dirs@.len() - i,
    {
        assert(all.take(i + 1).drop_last() =~= all.take(i as int));
        assert(all.take(i + 1).last() == dirs@[i as int]@);
        let files = if i < listings.len() {
            &listings[i]
        } else {
            &none
        };
        scan_flat_plugins_into_index(&dirs[i], files, &mut index);
        i += 1;
    }
    assert(all.take(all.len() as int) =~= all);
    index
}

/// Directories that are listed first win over those that come after them.
pub proof fn law_earlier_directories_win(
    dirs: Seq<PathView>,
    listings: Seq<Vec<String>>,
    n: int,
    key: Seq<char>,
)
    requires
        0 <= n <= dirs.len(),
        indexed(dirs.take(n), listings).contains_key(key),
    ensures
        indexed(dirs, listings).contains_key(key),
        indexed(dirs, listings)[key] == indexed(dirs.take(n), listings)[key],
    decreases dirs.len() - n,
{
    if n < dirs.len() {
        assert(dirs.take(n + 1).drop_last() =~= dirs.take(n));
        law_first_scanned_wins(
            indexed(dirs.take(n), listings),
            dirs[n],
            listing_of(listings, n),
            key,
        );
        law_earlier_directories_win(dirs, listings, n + 1, key);
    } else {
        assert(dirs.take(n) =~= dirs);
    }
}

/// The directories that are indexed to find plugins: the additional ones, then the main one. None
/// are where there is nothing additional, nor for the games that are searched file by file.
pub open spec fn indexed_directories(
    g: GameType,
    main: PathView,
    additional: Seq<PathView>,
) -> Seq<PathView> {
    if additional.len() == 0 || g == GameType::OpenMW || g == GameType::Starfield {
        Seq::empty()
    } else {
        additional.push(main)
    }
}

/// The directories to list before plugins are looked for.
pub fn directories_to_index(g: GameType, game_path: &str, additional: &Vec<JoinedPath>) -> (r: Vec<
    JoinedPath,
>)
    ensures
        path_views(r@) == indexed_directories(
            g,
            data_root(g, game_path@),
            path_views(additional@),
        ),
{
    if additional.len() == 0 || g == GameType::OpenMW || g == GameType::Starfield {
        let none: Vec<JoinedPath> = Vec::new();
        assert(path_views(none@) =~= Seq::<PathView>::empty());
        return none;
    }
    let mut out = copy_paths(additional);
    let ghost before = path_views(out@);
    let main = plugins_data_root(g, game_path);
    out.push(main);
    assert(path_views(out@) =~= before.push(main@));
    out
}

/// The two files that a plugin may have in a directory: its own, and its ghosted one.
pub open spec fn plugin_files(dir: PathView, name: Seq<char>) -> Seq<PathView> {
    seq![dir.join(name), dir.join(name + ".ghost"@)]
}

/// The file of a plugin in a directory, given whether its own file and its ghosted one exist.
pub fn first_existing_plugin_file(
    dir: &JoinedPath,
    plugin_name: &str,
    own_exists: bool,
    ghost_exists: bool,
) -> (r: Option<JoinedPath>)
    ensures
        match r {
            Some(p) => p@ == if own_exists {
                plugin_files(dir@, plugin_name@)[0]
            } else {
                plugin_files(dir@, plugin_name@)[1]
            },
            None => true,
        },
        r is Some <==> own_exists || ghost_exists,
{
    if own_exists {
        return Some(dir.join(plugin_name));
    }
    if ghost_exists {
        let mut ghosted = plugin_name.to_owned();
        ghosted.append(".ghost");
        return Some(dir.join(ghosted.as_str()));
    }
    None
}

/// The files that a plugin may have in some directories, directory by directory.
pub open spec fn files_in(dirs: Seq<PathView>, name: Seq<char>) -> Seq<PathView>
    decreases dirs.len(),
{
    if dirs.len() == 0 {
        Seq::empty()
    } else {
        files_in(dirs.drop_last(), name) + plugin_files(dirs.last(), name)
    }
}

/// Appends the files that a plugin may have in a directory.
fn push_files(out: &mut Vec<JoinedPath>, dir: &JoinedPath, name: &str)
    ensures
        path_views(final(out)@) == path_views(old(out)@) + plugin_files(dir@, name@),
{
    let ghost before = path_views(out@);
    let own = dir.join(name);
    let mut ghosted = name.to_owned();
    ghosted.append(".ghost");
    let other = dir.join(ghosted.as_str());
    out.push(own);
    out.push(other);
    assert(path_views(out@) =~= before + plugin_files(dir@, name@));
}

/// The files to look for, in their order, to find a plugin.
///
/// Without additional directories nothing is looked for. OpenMW lets the last directory win, so
/// its directories are searched from the last to the first. Starfield takes additional
/// directories into account only for plugins that the main directory has, so the main directory
/// comes first. For other games the index answers, and only a plugin that it does not hold is
/// looked for in the main directory.
pub open spec fn searched_files(
    g: GameType,
    main: PathView,
    additional: Seq<PathView>,
    name: Seq<char>,
    indexed: bool,
) -> Seq<PathView> {
    if additional.len() == 0 {
        Seq::empty()
    } else if g == GameType::OpenMW {
        files_in(additional.reverse(), name)
    } else if g == GameType::Starfield {
        plugin_files(main, name) + files_in(additional, name)
    } else if indexed {
        Seq::empty()
    } else {
        plugin_files(main, name)
    }
}

/// The files to look for, in their order, to find a plugin of a game at `game_path`.
pub fn plugin_search(
    g: GameType,
    game_path: &str,
    additional: &Vec<JoinedPath>,
    name: &str,
    index: &PluginIndex,
) -> (r: Vec<JoinedPath>)
    ensures
        path_views(r@) == searched_files(
            g,
            data_root(g, game_path@),
            path_views(additional@),
            name@,
            index@.contains_key(lowered(name@)),
        ),
{
    let mut out: Vec<JoinedPath> = Vec::new();
    assert(path_views(out@) =~= Seq::<PathView>::empty());
    if additional.len() == 0 {
        return out;
    }
    let main = plugins_data_root(g, game_path);
    let ghost dirs = path_views(additional@);
    if g == GameType::OpenMW {
        let ghost back = dirs.reverse();
        let mut i: usize = 0;
        assert(path_views(out@) =~= files_in(back.take(0), name@));
        while i < additional.len()
            invariant
                i <= additional@.len(),
                dirs == path_views(additional@),
                back == dirs.reverse(),
                path_views(out@) == files_in(back.take(i as int), name@),
            decreases additional@.len() - i,
        {
            let j: usize = additional.len() - 1 - i;
            assert(back.take(i + 1).drop_last() =~= back.take(i as int));
            assert(back.take(i + 1).last() == additional@[j as int]@);
            push_files(&mut out, &additional[j], name);
            i += 1;
        }
        assert(back.take(back.len() as int) =~= back);
        return out;
    }
    if g == GameType::Starfield {
        push_files(&mut out, &main, name);
        let mut i: usize = 0;
        assert(path_views(out@) =~= plugin_files(main@, name@) + files_in(dirs.take(0), name@));
        while i < additional.len()
            invariant
                i <= additional@.len(),
                dirs == path_views(additional@),
                path_views(out@) == plugin_files(main@, name@) + files_in(
                    dirs.take(i as int),
                    name@,
                ),
            decreases additional@.len() - i,
        {
            assert(dirs.take(i + 1).drop_last() =~= dirs.take(i as int));
            assert(dirs.take(i + 1).last() == additional@[i as int]@);
            let ghost before = path_views(out@);
            push_files(&mut out, &additional[i], name);
            assert(path_views(out@) =~= plugin_files(main@, name@) + files_in(
                dirs.take(i + 1),
                name@,
            ));
            i += 1;
        }
        assert(dirs.take(dirs.len() as int) =~= dirs);
        return out;
    }
    let key = to_ascii_lowercase(name);
    if !index.contains_key(key.as_str()) {
        push_files(&mut out, &main, name);
        assert(path_views(out@) =~= plugin_files(main@, name@));
    }
    out
}

/// The first of `files` from place `i` on of which `found` says that it exists. What `found` does
/// not reach does not exist.
pub open spec fn first_found(files: Seq<PathView>, found: Seq<bool>, i: int) -> Option<PathView>
    decreases files.len() - i,
{
    if i < 0 || files.len() <= i || found.len() <= i {
        None
    } else if found[i] {
        Some(files[i])
    } else {
        first_found(files, found, i + 1)
    }
}

/// The first of `files` from place `from` on of which `found` says that it exists.
fn pick_first_found(files: &Vec<JoinedPath>, found: &Vec<bool>, from: usize) -> (r: Option<
    JoinedPath,
>)
    ensures
        match r {
            Some(p) => first_found(path_views(files@), found@, from as int) == Some(p@),
            None => first_found(path_views(files@), found@, from as int) is None,
        },
{
    let mut i: usize = from;
    while i < files.len() && i < found.len()
        invariant
            from <= i,
            first_found(path_views(files@), found@, from as int) == first_found(
                path_views(files@),
                found@,
                i as int,
            ),
        decreases files@.len() - i,
    {
        if found[i] {
            return Some(files[i].copy());
        }
        i += 1;
    }
    None
}

/// The path under which a plugin is handed to libloot; `found` says of the files to look for, as
/// far as they were looked for, which exist.
pub open spec fn plugin_path(
    g: GameType,
    main: PathView,
    additional: Seq<PathView>,
    name: Seq<char>,
    index: Map<Seq<char>, PathView>,
    found: Seq<bool>,
) -> PathView {
    let key = lowered(name);
    let files = searched_files(g, main, additional, name, index.contains_key(key));
    if additional.len() == 0 {
        path_at(name)
    } else if g == GameType::OpenMW {
        match first_found(files, found, 0) {
            Some(p) => p,
            None => main.join(name),
        }
    } else if g == GameType::Starfield {
        match first_found(plugin_files(main, name), found, 0) {
            None => main.join(name),
            Some(in_main) => match first_found(files, found, 2) {
                Some(p) => p,
                None => in_main,
            },
        }
    } else if index.contains_key(key) {
        index[key]
    } else {
        match first_found(files, found, 0) {
            Some(p) => p,
            None => main.join(name),
        }
    }
}

/// The path under which a plugin is handed to libloot.
fn resolve_plugin_path(
    g: GameType,
    game_path: &str,
    additional: &Vec<JoinedPath>,
    name: &str,
    index: &PluginIndex,
    found: &Vec<bool>,
) -> (r: JoinedPath)
    ensures
        r@ == plugin_path(
            g,
            data_root(g, game_path@),
            path_views(additional@),
            name@,
            index@,
            found@,
        ),
{
    if additional.len() == 0 {
        return JoinedPath::at(name);
    }
    let main = plugins_data_root(g, game_path);
    let files = plugin_search(g, game_path, additional, name, index);
    if g == GameType::Starfield {
        let own_exists = found.len() > 0 && found[0];
        let ghost_exists = found.len() > 1 && found[1];
        proof {
            reveal_with_fuel(first_found, 3);
        }
        return match first_existing_plugin_file(&main, name, own_exists, ghost_exists) {
            None => main.join(name),
            Some(in_main) => match pick_first_found(&files, found, 2) {
                Some(p) => p,
                None => in_main,
            },
        };
    }
    if g != GameType::OpenMW {
        let key = to_ascii_lowercase(name);
        if let Some(p) = index.get(key.as_str()) {
            return p.copy();
        }
    }
    match pick_first_found(&files, found, 0) {
        Some(p) => p,
        None => main.join(name),
    }
}

/// Whether the answers that are in settle where a plugin is, so that no more files need to be
/// looked for.
pub open spec fn search_settled(g: GameType, found: Seq<bool>) -> bool {
    if g == GameType::Starfield {
        (found.len() == 2 && !found[0] && !found[1]) || (found.len() > 2 && found.last())
    } else {
        found.len() > 0 && found.last()
    }
}

/// Whether the search for a plugin may stop.
pub fn search_is_settled(g: GameType, found: &Vec<bool>) -> (r: bool)
    ensures
        r == search_settled(g, found@),
{
    let n: usize = found.len();
    if g == GameType::Starfield {
        (n == 2 && !found[0] && !found[1]) || (n > 2 && found[n - 1])
    } else {
        n > 0 && found[n - 1]
    }
}

/// Answers past one that is positive do not matter.
proof fn lemma_first_found_prefix(files: Seq<PathView>, found: Seq<bool>, n: int, i: int)
    requires
        0 <= i < n <= found.len(),
        found[n - 1],
    ensures
        first_found(files, found.take(n), i) == first_found(files, found, i),
    decreases n - i,
{
    if i < files.len() && !found[i] {
        if i + 1 < n {
            lemma_first_found_prefix(files, found, n, i + 1);
        }
    }
}

/// Once the search is settled, nothing that is looked up later changes where the plugin is.
pub proof fn law_settled_search_may_stop(
    g: GameType,
    main: PathView,
    additional: Seq<PathView>,
    name: Seq<char>,
    index: Map<Seq<char>, PathView>,
    found: Seq<bool>,
    n: int,
)
    requires
        0 <= n <= found.len(),
        search_settled(g, found.take(n)),
    ensures
        plugin_path(g, main, additional, name, index, found.take(n)) == plugin_path(
            g,
            main,
            additional,
            name,
            index,
            found,
        ),
{
    let f = found.take(n);
    let files = searched_files(g, main, additional, name, index.contains_key(lowered(name)));
    let own = plugin_files(main, name);
    if g == GameType::Starfield {
        assert(f[0] == found[0] && f[1] == found[1]);
        assert(first_found(own, f, 0) == first_found(own, found, 0)) by {
            reveal_with_fuel(first_found, 4);
        }
        if n > 2 {
            lemma_first_found_prefix(files, found, n, 2);
        } else {
            assert(first_found(own, f, 0) is None) by {
                reveal_with_fuel(first_found, 4);
            }
        }
    } else {
        assert(f.last() == found[n - 1]);
        lemma_first_found_prefix(files, found, n, 0);
    }
}

/// A plugin that one of the first `n` additional directories has is taken from there, whatever the
/// directories after them and the main one hold. This is so for all games that are not searched
/// file by file.
pub proof fn law_plugins_come_from_the_first_directory(
    g: GameType,
    main: PathView,
    additional: Seq<PathView>,
    listings: Seq<Vec<String>>,
    name: Seq<char>,
    found: Seq<bool>,
    n: int,
)
    requires
        g != GameType::OpenMW,
        g != GameType::Starfield,
        0 <= n <= additional.len(),
        indexed(additional.take(n), listings).contains_key(lowered(name)),
    ensures
        plugin_path(
            g,
            main,
            additional,
            name,
            indexed(indexed_directories(g, main, additional), listings),
            found,
        ) == indexed(additional.take(n), listings)[lowered(name)],
{
    let dirs = additional.push(main);
    assert(additional.len() > 0) by {
        if additional.len() == 0 {
            assert(additional.take(n).len() == 0);
        }
    }
    assert(dirs.take(n) =~= additional.take(n));
    law_earlier_directories_win(dirs, listings, n, lowered(name));
}

/// The files to look for start with those in the first directory.
proof fn lemma_files_in_first(dirs: Seq<PathView>, name: Seq<char>)
    requires
        dirs.len() > 0,
    ensures
        files_in(dirs, name).len() >= 2,
        files_in(dirs, name)[0] == plugin_files(dirs[0], name)[0],
        files_in(dirs, name)[1] == plugin_files(dirs[0], name)[1],
    decreases dirs.len(),
{
    if dirs.len() > 1 {
        lemma_files_in_first(dirs.drop_last(), name);
    } else {
        assert(files_in(dirs.drop_last(), name).len() == 0);
    }
}

/// With OpenMW the last additional directory wins: a plugin that it has, ghosted or not, is taken
/// from there.
pub proof fn law_openmw_lets_the_last_directory_win(
    main: PathView,
    additional: Seq<PathView>,
    name: Seq<char>,
    index: Map<Seq<char>, PathView>,
    found: Seq<bool>,
)
    requires
        additional.len() > 0,
        found.len() > 0,
        found[0] || (found.len() > 1 && found[1]),
    ensures
        plugin_path(GameType::OpenMW, main, additional, name, index, found) == if found[0] {
            additional.last().join(name)
        } else {
            additional.last().join(name + ".ghost"@)
        },
{
    lemma_files_in_first(additional.reverse(), name);
    reveal_with_fuel(first_found, 3);
}

/// With Starfield a plugin that the main directory does not have is not taken from anywhere else.
pub proof fn law_starfield_needs_the_main_file(
    main: PathView,
    additional: Seq<PathView>,
    name: Seq<char>,
    index: Map<Seq<char>, PathView>,
    found: Seq<bool>,
)
    requires
        additional.len() > 0,
        found.len() >= 2,
        !found[0],
        !found[1],
    ensures
        plugin_path(GameType::Starfield, main, additional, name, index, found) == main.join(name),
{
    reveal_with_fuel(first_found, 4);
}

/// What was found for the `i`-th plugin; nothing, where no answers are given for it.
pub open spec fn answers_for(found: Seq<Vec<bool>>, i: int) -> Seq<bool> {
    if i < found.len() {
        found[i]@
    } else {
        Seq::empty()
    }
}

/// The paths under which the plugins of a load order are handed to libloot. `found` holds the
/// answers for each plugin, in the order of the plugins.
pub fn absolute_plugin_paths_for_libloot(
    g: GameType,
    game_path: &str,
    additional: &Vec<JoinedPath>,
    load_order: &Vec<String>,
    index: &PluginIndex,
    found: &Vec<Vec<bool>>,
) -> (r: Vec<JoinedPath>)
    ensures
        r@.len() == load_order@.len(),
        forall|i: int|
            0 <= i < r@.len() ==> (#[trigger] r@[i])@ == plugin_path(
                g,
                data_root(g, game_path@),
                path_views(additional@),
                load_order@[i]@,
                index@,
                answers_for(found@, i),
            ),
{
    let mut out: Vec<JoinedPath> = Vec::new();
    let none: Vec<bool> = Vec::new();
    let mut i: usize = 0;
    while i < load_order.len()
        invariant
            i <= load_order@.len(),
            out@.len() == i,
            none@ == Seq::<bool>::empty(),
            forall|j: int|
                0 <= j < i ==> (#[trigger] out@[j])@ == plugin_path(
                    g,
                    data_root(g, game_path@),
                    path_views(additional@),
                    load_order@[j]@,
                    index@,
                    answers_for(found@, j),
                ),
        decreases load_order@.len() - i,
    {
        let answers = if i < found.len() {
            &found[i]
        } else {
            &none
        };
        let p = resolve_plugin_path(
            g,
            game_path,
            additional,
            load_order[i].as_str(),
            index,
            answers,
        );
        out.push(p);
        i += 1;
    }
    out
}

/// A lower case name that ends like a plugin does not end like a ghosted one.
proof fn lemma_plugin_is_not_ghosted(n: Seq<char>)
    requires
        ends_with(n, ".esp"@) || ends_with(n, ".esm"@) || ends_with(n, ".esl"@),
    ensures
        !is_ghosted(n),
{
    reveal_strlit(".esp");
    reveal_strlit(".esm");
    reveal_strlit(".esl");
    reveal_strlit(".esp.ghost");
    reveal_strlit(".esm.ghost");
    reveal_strlit(".esl.ghost");
    let ext = n.skip(n.len() - 4);
    assert(ext[3] == n[n.len() - 1]);
    if is_ghosted(n) {
        assert(n.skip(n.len() - 10)[9] == 't');
        assert(n[n.len() - 1] == 't');
    }
}

/// Files are found as plugins by how their names end, whatever the case of the letters: `.esp`,
/// `.esm` and `.esl` files under their own names, the ghosts of such files under the names that they
/// have without `.ghost`, and no other files.
pub proof fn law_plugin_file_names(name: Seq<char>)
    ensures
        ends_with(lowered(name), ".esp"@) ==> index_key(name) == Some(lowered(name)),
        ends_with(lowered(name), ".esm"@) ==> index_key(name) == Some(lowered(name)),
        ends_with(lowered(name), ".esl"@) ==> index_key(name) == Some(lowered(name)),
        ends_with(lowered(name), ".esp.ghost"@) ==> index_key(name) == Some(
            lowered(name).take(name.len() - 6),
        ),
        ends_with(lowered(name), ".esm.ghost"@) ==> index_key(name) == Some(
            lowered(name).take(name.len() - 6),
        ),
        ends_with(lowered(name), ".esl.ghost"@) ==> index_key(name) == Some(
            lowered(name).take(name.len() - 6),
        ),
        index_key(name) is Some ==> ends_with(lowered(name), ".esp"@) || ends_with(
            lowered(name),
            ".esm"@,
        ) || ends_with(lowered(name), ".esl"@) || ends_with(lowered(name), ".esp.ghost"@)
            || ends_with(lowered(name), ".esm.ghost"@) || ends_with(lowered(name), ".esl.ghost"@),
{
    let n = lowered(name);
    if ends_with(n, ".esp"@) || ends_with(n, ".esm"@) || ends_with(n, ".esl"@) {
        lemma_plugin_is_not_ghosted(n);
    }
}

/// Whether a name ends, in lower case, in `.esp`, `.esm` or `.esl`.
pub open spec fn is_plugin_name(name: Seq<char>) -> bool {
    let n = lowered(name);
    let e = n.skip(n.len() - 4);
    n.len() >= 4 && (e == seq!['.', 'e', 's', 'p'] || e == seq!['.', 'e', 's', 'm'] || e
        == seq!['.', 'e', 's', 'l'])
}

/// Whether a file is that of a plugin: it has its name, or its name and `.ghost`, the case of ASCII
/// letters aside.
pub open spec fn is_file_of(file: Seq<char>, name: Seq<char>) -> bool {
    lowered(file) == lowered(name) || lowered(file) == lowered(name) + seq![
        '.',
        'g',
        'h',
        'o',
        's',
        't',
    ]
}

/// The files of a plugin are those that are found under its name in lower case.
pub proof fn law_files_of_a_plugin(file: Seq<char>, name: Seq<char>)
    requires
        is_plugin_name(name),
    ensures
        index_key(file) == Some(lowered(name)) <==> is_file_of(file, name),
{
    reveal_strlit(".esp");
    reveal_strlit(".esm");
    reveal_strlit(".esl");
    reveal_strlit(".esp.ghost");
    reveal_strlit(".esm.ghost");
    reveal_strlit(".esl.ghost");
    let n = lowered(name);
    let f = lowered(file);
    let ghost_end = seq!['.', 'g', 'h', 'o', 's', 't'];
    let e = n.skip(n.len() - 4);
    assert(".esp"@ =~= seq!['.', 'e', 's', 'p']);
    assert(".esm"@ =~= seq!['.', 'e', 's', 'm']);
    assert(".esl"@ =~= seq!['.', 'e', 's', 'l']);
    assert(".esp.ghost"@ =~= ".esp"@ + ghost_end);
    assert(".esm.ghost"@ =~= ".esm"@ + ghost_end);
    assert(".esl.ghost"@ =~= ".esl"@ + ghost_end);
    assert(ends_with(n, ".esp"@) || ends_with(n, ".esm"@) || ends_with(n, ".esl"@));
    law_plugin_file_names(name);
    law_plugin_file_names(file);
    if f == n {
        lemma_plugin_is_not_ghosted(f);
    } else if f == n + ghost_end {
        assert(f.skip(f.len() - 10) =~= e + ghost_end);
        assert(f.take(f.len() - 6) =~= n);
    }
    if index_key(file) == Some(n) && f != n {
        assert(is_ghosted(f)) by {
            if ends_with(f, ".esp"@) || ends_with(f, ".esm"@) || ends_with(f, ".esl"@) {
                assert(index_key(file) == Some(f));
            }
        }
        let tail = f.skip(f.len() - 10);
        assert(tail.skip(4) =~= ghost_end);
        assert(f.skip(f.len() - 6) =~= tail.skip(4));
        assert(f =~= f.take(f.len() - 6) + f.skip(f.len() - 6));
    }
}

/// Of the files of a directory the first that is found under a name is entered under it, unless the
/// name is taken.
pub proof fn law_first_file_is_entered(
    index: Map<Seq<char>, PathView>,
    dir: PathView,
    files: Seq<Seq<char>>,
    i: int,
    key: Seq<char>,
)
    requires
        0 <= i < files.len(),
        index_key(files[i]) == Some(key),
        !index.contains_key(key),
        forall|j: int| 0 <= j < i ==> index_key(#[trigger] files[j]) != Some(key),
    ensures
        scanned(index, dir, files).contains_key(key),
        scanned(index, dir, files)[key] == dir.join(files[i]),
    decreases files.len(),
{
    let rest = files.drop_last();
    if i < rest.len() {
        assert(rest[i] == files[i]);
        assert forall|j: int| 0 <= j < i implies index_key(#[trigger] rest[j]) != Some(key) by {
            assert(rest[j] == files[j]);
        }
        law_first_file_is_entered(index, dir, rest, i, key);
    } else {
        assert forall|j: int| 0 <= j < rest.len() implies index_key(#[trigger] rest[j]) != Some(
            key,
        ) by {
            assert(rest[j] == files[j]);
        }
        law_nothing_else_is_entered(index, dir, rest, key);
    }
}

/// A name that no file of a directory is found under is not entered for it.
pub proof fn law_nothing_else_is_entered(
    index: Map<Seq<char>, PathView>,
    dir: PathView,
    files: Seq<Seq<char>>,
    key: Seq<char>,
)
    requires
        forall|j: int| 0 <= j < files.len() ==> index_key(#[trigger] files[j]) != Some(key),
    ensures
        scanned(index, dir, files).contains_key(key) == index.contains_key(key),
    decreases files.len(),
{
    if files.len() > 0 {
        let rest = files.drop_last();
        assert forall|j: int| 0 <= j < rest.len() implies index_key(#[trigger] rest[j]) != Some(
            key,
        ) by {
            assert(rest[j] == files[j]);
        }
        law_nothing_else_is_entered(index, dir, rest, key);
        assert(index_key(files[files.len() - 1]) != Some(key));
    }
}

/// Whether a directory lists a file of a plugin.
pub open spec fn lists_plugin(listings: Seq<Vec<String>>, d: int, name: Seq<char>) -> bool {
    d < listings.len() && exists|i: int|
        0 <= i < listings[d]@.len() && is_file_of((#[trigger] listings[d]@[i])@, name)
}

/// The listing of a directory is what it was given as.
proof fn lemma_listing(listings: Seq<Vec<String>>, d: int)
    requires
        0 <= d,
    ensures
        listing_of(listings, d).len() == if d < listings.len() {
            listings[d]@.len()
        } else {
            0
        },
        forall|i: int|
            d < listings.len() && 0 <= i < listings[d]@.len() ==> #[trigger] listing_of(
                listings,
                d,
            )[i] == listings[d]@[i]@,
{
}

/// A plugin that none of some directories lists is not in their index.
proof fn lemma_unlisted(dirs: Seq<PathView>, listings: Seq<Vec<String>>, name: Seq<char>)
    requires
        is_plugin_name(name),
        forall|d: int| 0 <= d < dirs.len() ==> !#[trigger] lists_plugin(listings, d, name),
    ensures
        !indexed(dirs, listings).contains_key(lowered(name)),
    decreases dirs.len(),
{
    if dirs.len() > 0 {
        let d = dirs.len() - 1;
        let rest = dirs.drop_last();
        lemma_unlisted(rest, listings, name);
        lemma_listing(listings, d);
        let files = listing_of(listings, d);
        assert(!lists_plugin(listings, d, name));
        assert forall|j: int| 0 <= j < files.len() implies index_key(#[trigger] files[j]) != Some(
            lowered(name),
        ) by {
            law_files_of_a_plugin(files[j], name);
            assert(files[j] == listings[d]@[j]@);
        }
        law_nothing_else_is_entered(indexed(rest, listings), dirs.last(), files, lowered(name));
    }
}

/// A plugin is indexed at the first of its files in the first directory that lists one.
pub proof fn law_indexed_where_first_listed(
    dirs: Seq<PathView>,
    listings: Seq<Vec<String>>,
    name: Seq<char>,
    d: int,
    i: int,
)
    requires
        is_plugin_name(name),
        0 <= d < dirs.len(),
        d < listings.len(),
        0 <= i < listings[d]@.len(),
        is_file_of(listings[d]@[i]@, name),
        forall|j: int| 0 <= j < i ==> !is_file_of((#[trigger] listings[d]@[j])@, name),
        forall|e: int| 0 <= e < d ==> !#[trigger] lists_plugin(listings, e, name),
    ensures
        indexed(dirs, listings).contains_key(lowered(name)),
        indexed(dirs, listings)[lowered(name)] == dirs[d].join(listings[d]@[i]@),
{
    let key = lowered(name);
    let before = dirs.take(d);
    lemma_unlisted(before, listings, name);
    lemma_listing(listings, d);
    let files = listing_of(listings, d);
    assert(files[i] == listings[d]@[i]@);
    law_files_of_a_plugin(files[i], name);
    assert forall|j: int| 0 <= j < i implies index_key(#[trigger] files[j]) != Some(key) by {
        assert(files[j] == listings[d]@[j]@);
        law_files_of_a_plugin(files[j], name);
    }
    law_first_file_is_entered(indexed(before, listings), dirs[d], files, i, key);
    assert(dirs.take(d + 1).drop_last() =~= before);
    assert(indexed(dirs.take(d + 1), listings) == scanned(
        indexed(before, listings),
        dirs[d],
        files,
    ));
    law_earlier_directories_win(dirs, listings, d + 1, key);
}

/// Where a plugin is handed to libloot from, for games that are not searched file by file: the first
/// additional directory that lists a file of the plugin, or else the main directory where that does,
/// at the file that is listed first there.
pub proof fn law_plugin_is_where_first_listed(
    g: GameType,
    main: PathView,
    additional: Seq<PathView>,
    listings: Seq<Vec<String>>,
    name: Seq<char>,
    found: Seq<bool>,
    d: int,
    i: int,
)
    requires
        g != GameType::OpenMW,
        g != GameType::Starfield,
        additional.len() > 0,
        is_plugin_name(name),
        0 <= d <= additional.len(),
        d < listings.len(),
        0 <= i < listings[d]@.len(),
        is_file_of(listings[d]@[i]@, name),
        forall|j: int| 0 <= j < i ==> !is_file_of((#[trigger] listings[d]@[j])@, name),
        forall|e: int| 0 <= e < d ==> !#[trigger] lists_plugin(listings, e, name),
    ensures
        plugin_path(
            g,
            main,
            additional,
            name,
            indexed(indexed_directories(g, main, additional), listings),
            found,
        ) == (PathView {
            base: additional.push(main)[d].base,
            parts: additional.push(main)[d].parts.push(listings[d]@[i]@),
        }),
{
    law_indexed_where_first_listed(additional.push(main), listings, name, d, i);
}

/// A plugin that no directory lists is handed over from the main directory: its own file where that
/// exists, else its ghost where that exists, else its own file all the same.
pub proof fn law_unlisted_plugin_is_in_the_main_directory(
    g: GameType,
    main: PathView,
    additional: Seq<PathView>,
    listings: Seq<Vec<String>>,
    name: Seq<char>,
    found: Seq<bool>,
)
    requires
        g != GameType::OpenMW,
        g != GameType::Starfield,
        additional.len() > 0,
        is_plugin_name(name),
        forall|d: int| 0 <= d <= additional.len() ==> !#[trigger] lists_plugin(listings, d, name),
        found.len() == 2,
    ensures
        plugin_path(
            g,
            main,
            additional,
            name,
            indexed(indexed_directories(g, main, additional), listings),
            found,
        ) == if !found[0] && found[1] {
            main.join(name + ".ghost"@)
        } else {
            main.join(name)
        },
{
    lemma_unlisted(additional.push(main), listings, name);
    reveal_with_fuel(first_found, 4);
}

/// Without additional directories plugins are handed over by their names alone, and nothing is
/// listed or looked for.
pub proof fn law_names_alone(
    g: GameType,
    main: PathView,
    name: Seq<char>,
    index: Map<Seq<char>, PathView>,
    found: Seq<bool>,
)
    ensures
        plugin_path(g, main, Seq::empty(), name, index, found).base == name,
        plugin_path(g, main, Seq::empty(), name, index, found).parts.len() == 0,
        indexed_directories(g, main, Seq::empty()).len() == 0,
        searched_files(g, main, Seq::empty(), name, index.contains_key(lowered(name))).len() == 0,
{
}

/// The directories that are indexed: the additional ones in their order and then the main one, but
/// none for the games that are searched file by file.
pub proof fn law_indexed_directories(g: GameType, main: PathView, additional: Seq<PathView>)
    requires
        additional.len() > 0,
    ensures
        g == GameType::OpenMW || g == GameType::Starfield ==> indexed_directories(
            g,
            main,
            additional,
        ).len() == 0,
        g != GameType::OpenMW && g != GameType::Starfield ==> indexed_directories(
            g,
            main,
            additional,
        ) == additional + seq![main],
{
    assert(additional + seq![main] =~= additional.push(main));
}

/// The files to look for in some directories: in each, the plugin's own file and then its ghost.
pub proof fn law_files_in_directories(dirs: Seq<PathView>, name: Seq<char>)
    ensures
        files_in(dirs, name).len() == 2 * dirs.len(),
        forall|d: int|
            0 <= d < dirs.len() ==> files_in(dirs, name)[2 * d] == (#[trigger] dirs[d]).join(name)
                && files_in(dirs, name)[2 * d + 1] == dirs[d].join(name + ".ghost"@),
    decreases dirs.len(),
{
    if dirs.len() > 0 {
        let rest = dirs.drop_last();
        law_files_in_directories(rest, name);
        let last = dirs.len() - 1;
        assert forall|d: int| 0 <= d < dirs.len() implies files_in(dirs, name)[2 * d] == (
        #[trigger] dirs[d]).join(name) && files_in(dirs, name)[2 * d + 1] == dirs[d].join(
            name + ".ghost"@,
        ) by {
            if d < last {
                assert(rest[d] == dirs[d]);
            }
        }
    }
}

/// The first file that exists is the one that is taken.
pub proof fn law_first_found(files: Seq<PathView>, found: Seq<bool>, i: int, k: int)
    requires
        0 <= i <= k,
        forall|j: int| i <= j < k && j < found.len() ==> !#[trigger] found[j],
    ensures
        k < files.len() && k < found.len() && found[k] ==> first_found(files, found, i) == Some(
            files[k],
        ),
        k >= files.len() || k >= found.len() ==> first_found(files, found, i) is None,
    decreases k - i,
{
    if i < k {
        if i < files.len() && i < found.len() {
            assert(!found[i]);
            law_first_found(files, found, i + 1, k);
        }
    }
}

/// OpenMW looks through the additional directories from the last to the first, in each for the
/// plugin's own file and then for its ghost, and takes the first file that exists; without any, the
/// one in the main directory.
pub proof fn law_openmw_search(
    main: PathView,
    additional: Seq<PathView>,
    name: Seq<char>,
    index: Map<Seq<char>, PathView>,
    found: Seq<bool>,
    k: int,
)
    requires
        additional.len() > 0,
        0 <= k,
        forall|j: int| 0 <= j < k && j < found.len() ==> !#[trigger] found[j],
    ensures
        k < 2 * additional.len() && k < found.len() && found[k] ==> plugin_path(
            GameType::OpenMW,
            main,
            additional,
            name,
            index,
            found,
        ) == additional[additional.len() - 1 - k / 2].join(
            if k % 2 == 0 {
                name
            } else {
                name + ".ghost"@
            },
        ),
        k >= 2 * additional.len() || k >= found.len() ==> plugin_path(
            GameType::OpenMW,
            main,
            additional,
            name,
            index,
            found,
        ) == main.join(name),
        forall|d: int|
            0 <= d < additional.len() ==> searched_files(
                GameType::OpenMW,
                main,
                additional,
                name,
                index.contains_key(lowered(name)),
            )[2 * d] == (#[trigger] additional.reverse()[d]).join(name),
{
    let back = additional.reverse();
    let files = files_in(back, name);
    law_files_in_directories(back, name);
    law_first_found(files, found, 0, k);
    if k < 2 * additional.len() {
        let d = k / 2;
        assert(back[d] == additional[additional.len() - 1 - d]);
        assert(files[2 * d] == back[d].join(name));
    }
}

/// Starfield first looks into the main directory, and where that has the plugin, through the
/// additional directories from the first to the last; the first file there wins over the main one.
pub proof fn law_starfield_search(
    main: PathView,
    additional: Seq<PathView>,
    name: Seq<char>,
    index: Map<Seq<char>, PathView>,
    found: Seq<bool>,
    k: int,
)
    requires
        additional.len() > 0,
        found.len() >= 2,
        found[0] || found[1],
        2 <= k,
        forall|j: int| 2 <= j < k && j < found.len() ==> !#[trigger] found[j],
    ensures
        k < 2 + 2 * additional.len() && k < found.len() && found[k] ==> plugin_path(
            GameType::Starfield,
            main,
            additional,
            name,
            index,
            found,
        ) == additional[k / 2 - 1].join(
            if k % 2 == 0 {
                name
            } else {
                name + ".ghost"@
            },
        ),
        k >= 2 + 2 * additional.len() || k >= found.len() ==> plugin_path(
            GameType::Starfield,
            main,
            additional,
            name,
            index,
            found,
        ) == main.join(
            if found[0] {
                name
            } else {
                name + ".ghost"@
            },
        ),
{
    let own = plugin_files(main, name);
    let files = own + files_in(additional, name);
    law_files_in_directories(additional, name);
    law_first_found(files, found, 2, k);
    assert(first_found(own, found, 0) == Some(
        main.join(
            if found[0] {
                name
            } else {
                name + ".ghost"@
            },
        ),
    )) by {
        reveal_with_fuel(first_found, 3);
    }
    if k < 2 + 2 * additional.len() {
        let d = k / 2 - 1;
        assert(files_in(additional, name)[2 * d] == additional[d].join(name));
    }
}

/// The files that are looked for: for Starfield those of the main directory and then those of the
/// additional ones; for the games that are indexed those of the main directory, where the index does
/// not have the plugin.
pub proof fn law_searched_files(
    g: GameType,
    main: PathView,
    additional: Seq<PathView>,
    name: Seq<char>,
    indexed: bool,
)
    requires
        additional.len() > 0,
    ensures
        g == GameType::Starfield ==> searched_files(g, main, additional, name, indexed) == seq![
            main.join(name),
            main.join(name + ".ghost"@),
        ] + files_in(additional, name),
        g == GameType::OpenMW ==> searched_files(g, main, additional, name, indexed) == files_in(
            additional.reverse(),
            name,
        ),
        g != GameType::Starfield && g != GameType::OpenMW && indexed ==> searched_files(
            g,
            main,
            additional,
            name,
            indexed,
        ).len() == 0,
        g != GameType::Starfield && g != GameType::OpenMW && !indexed ==> searched_files(
            g,
            main,
            additional,
            name,
            indexed,
        ) == seq![main.join(name), main.join(name + ".ghost"@)],
{
}

/// The search goes on until a file is found, and for Starfield until the main directory is known not
/// to have the plugin or a file is found beside it.
pub proof fn law_search_ends(g: GameType, found: Seq<bool>)
    ensures
        !search_settled(g, Seq::empty()),
        g != GameType::Starfield ==> !search_settled(g, found.push(false)) && search_settled(
            g,
            found.push(true),
        ),
        g == GameType::Starfield ==> search_settled(g, seq![false, false]) && !search_settled(
            g,
            seq![true, false],
        ) && !search_settled(g, seq![false, true]),
        g == GameType::Starfield && found.len() >= 2 ==> search_settled(g, found.push(true))
            && !search_settled(g, found.push(false)),
{
}

/// Each plugin is looked for with the answers that were given for it.
pub proof fn law_answers_of_a_plugin(found: Seq<Vec<bool>>, i: int)
    requires
        0 <= i,
    ensures
        i < found.len() ==> answers_for(found, i) == found[i]@,
        i >= found.len() ==> answers_for(found, i).len() == 0,
{
}

} // verus!
