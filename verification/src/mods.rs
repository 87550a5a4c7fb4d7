//! The plugin directories of Mod Organizer 2 and those that a request adds.

use crate::errors::{ErrorView, LootError};
use crate::paths::{path_at, path_views, JoinedPath, PathView};
use crate::profile::{enabled_mods, parse_mo2_enabled_mods};
use crate::request::{opt_texts, EvalRequest};
use crate::text::{given, given_text, opt_text, texts, trim, trimmed};
use vstd::prelude::*;

verus! {

/// A mods folder and the profile that says which of its mods are enabled.
#[derive(Debug)]
pub struct Mo2Scan {
    pub mods_root: String,
    pub profile_dir: String,
}

/// [`Mo2Scan`] with its texts as character sequences.
pub struct Mo2ScanView {
    pub mods_root: Seq<char>,
    pub profile_dir: Seq<char>,
}

impl View for Mo2Scan {
    type V = Mo2ScanView;

    open spec fn view(&self) -> Mo2ScanView {
        Mo2ScanView { mods_root: self.mods_root@, profile_dir: self.profile_dir@ }
    }
}

/// Whether mods have to be looked up: only where a mods folder is given, which then needs a
/// profile directory.
pub open spec fn scan_wanted(mods: Option<Seq<char>>, profile: Option<Seq<char>>) -> Result<
    Option<Mo2ScanView>,
    ErrorView,
> {
    match given(mods) {
        None => Ok(None),
        Some(mods_root) => match given(profile) {
            None => Err(ErrorView::ProfileRequiredForMods),
            Some(profile_dir) => Ok(Some(Mo2ScanView { mods_root, profile_dir })),
        },
    }
}

/// The mods folder to look through, where the request asks for one.
pub fn mo2_scan(req: &EvalRequest) -> (r: Result<Option<Mo2Scan>, LootError>)
    ensures
        match r {
            Ok(None) => scan_wanted(opt_text(req.mo2_mods_path), opt_text(req.game_local_path))
                == Ok::<Option<Mo2ScanView>, ErrorView>(None),
            Ok(Some(s)) => scan_wanted(opt_text(req.mo2_mods_path), opt_text(req.game_local_path))
                == Ok::<Option<Mo2ScanView>, ErrorView>(Some(s@)),
            Err(e) => scan_wanted(opt_text(req.mo2_mods_path), opt_text(req.game_local_path))
                == Err::<Option<Mo2ScanView>, ErrorView>(e@),
        },
{
    match given_text(&req.mo2_mods_path) {
        None => Ok(None),
        Some(mods_root) => match given_text(&req.game_local_path) {
            None => Err(LootError::ProfileRequiredForMods),
            Some(profile_dir) => Ok(Some(Mo2Scan { mods_root, profile_dir })),
        },
    }
}

/// What reading `modlist.txt` gave.
#[derive(Debug)]
pub enum ModlistRead {
    /// There is no such file.
    NotAFile,
    /// The file could not be read as text; with its path as it is shown.
    Unreadable { path: String, cause: String },
    Text(String),
}

/// The mods that a profile enables, or why they are not known.
pub open spec fn modlist_outcome(profile_dir: Seq<char>, read: ModlistRead) -> Result<
    Seq<Seq<char>>,
    ErrorView,
> {
    match read {
        ModlistRead::NotAFile => Err(ErrorView::ModlistNotFound(profile_dir)),
        ModlistRead::Unreadable { path, cause } => Err(
            ErrorView::ReadFailed { path: path@, cause: cause@ },
        ),
        ModlistRead::Text(t) => Ok(enabled_mods(t@)),
    }
}

/// The file that lists a profile's mods.
pub fn modlist_path(profile_dir: &str) -> (r: JoinedPath)
    ensures
        r@ == path_at(profile_dir@).join("modlist.txt"@),
{
    JoinedPath::at(profile_dir).join("modlist.txt")
}

/// The mods that a profile enables, in the order of its `modlist.txt`.
pub fn enabled_from_modlist(profile_dir: &str, read: ModlistRead) -> (r: Result<
    Vec<String>,
    LootError,
>)
    ensures
        match r {
            Ok(v) => modlist_outcome(profile_dir@, read) == Ok::<Seq<Seq<char>>, ErrorView>(
                texts(v@),
            ),
            Err(e) => modlist_outcome(profile_dir@, read) == Err::<Seq<Seq<char>>, ErrorView>(e@),
        },
{
    match read {
        ModlistRead::NotAFile => Err(LootError::ModlistNotFound(profile_dir.to_owned())),
        ModlistRead::Unreadable { path, cause } => Err(LootError::ReadFailed { path, cause }),
        ModlistRead::Text(t) => Ok(parse_mo2_enabled_mods(t.as_str())),
    }
}

/// The two directories of a mod that may hold its plugins.
#[derive(Debug)]
pub struct ModDirs {
    /// `Data` in the mod's own directory.
    pub data: JoinedPath,
    /// The mod's own directory.
    pub own: JoinedPath,
}

/// Which of [`ModDirs`] are directories.
#[derive(Debug, Clone, Copy)]
pub struct ModDirFacts {
    pub data: bool,
    pub own: bool,
}

/// A mod's own directory.
pub open spec fn mod_dir(mods_root: Seq<char>, name: Seq<char>) -> PathView {
    path_at(mods_root).join(name)
}

/// The directories to look up for each mod, in the order of the mods.
pub fn mod_dirs(mods_root: &str, names: &Vec<String>) -> (r: Vec<ModDirs>)
    ensures
        r@.len() == names@.len(),
        forall|i: int|
            0 <= i < r@.len() ==> (#[trigger] r@[i]).own@ == mod_dir(mods_root@, names@[i]@)
                && r@[i].data@ == mod_dir(mods_root@, names@[i]@).join("Data"@),
{
    let mut out: Vec<ModDirs> = Vec::new();
    let mut i: usize = 0;
    while i < names.len()
        invariant
            i <= names@.len(),
            out@.len() == i,
            forall|j: int|
                0 <= j < i ==> (#[trigger] out@[j]).own@ == mod_dir(mods_root@, names@[j]@)
                    && out@[j].data@ == mod_dir(mods_root@, names@[j]@).join("Data"@),
        decreases names@.len() - i,
    {
        let own = JoinedPath::at(mods_root).join(names[i].as_str());
        let data = own.join("Data");
        out.push(ModDirs { data, own });
        i += 1;
    }
    out
}

/// The directory of a mod that is searched for plugins: its `Data`, or else its own, where that
/// is a directory.
pub open spec fn mod_root(mods_root: Seq<char>, name: Seq<char>, facts: ModDirFacts) -> Option<
    PathView,
> {
    if facts.data {
        Some(mod_dir(mods_root, name).join("Data"@))
    } else if facts.own {
        Some(mod_dir(mods_root, name))
    } else {
        None
    }
}

/// The directories of the enabled mods that are searched for plugins. The mod that is listed last
/// has the highest priority and comes first.
pub open spec fn mod_roots(
    mods_root: Seq<char>,
    names: Seq<Seq<char>>,
    facts: Seq<ModDirFacts>,
) -> Seq<PathView>
    recommends
        facts.len() == names.len(),
    decreases names.len(),
{
    if names.len() == 0 {
        Seq::empty()
    } else {
        let rest = mod_roots(mods_root, names.drop_last(), facts.drop_last());
        match mod_root(mods_root, names.last(), facts.last()) {
            Some(p) => seq![p] + rest,
            None => rest,
        }
    }
}

/// Mods that are listed later come before all those that are listed earlier.
pub proof fn law_later_mods_come_first(
    mods_root: Seq<char>,
    early: Seq<Seq<char>>,
    late: Seq<Seq<char>>,
    early_facts: Seq<ModDirFacts>,
    late_facts: Seq<ModDirFacts>,
)
    requires
        early.len() == early_facts.len(),
        late.len() == late_facts.len(),
    ensures
        mod_roots(mods_root, early + late, early_facts + late_facts) == mod_roots(
            mods_root,
            late,
            late_facts,
        ) + mod_roots(mods_root, early, early_facts),
    decreases late.len(),
{
    if late.len() == 0 {
        assert(early + late =~= early);
        assert(early_facts + late_facts =~= early_facts);
        assert(mod_roots(mods_root, early, early_facts) =~= mod_roots(mods_root, late, late_facts)
            + mod_roots(mods_root, early, early_facts));
    } else {
        assert((early + late).drop_last() =~= early + late.drop_last());
        assert((early_facts + late_facts).drop_last() =~= early_facts + late_facts.drop_last());
        law_later_mods_come_first(
            mods_root,
            early,
            late.drop_last(),
            early_facts,
            late_facts.drop_last(),
        );
        assert(mod_roots(mods_root, early + late, early_facts + late_facts) =~= mod_roots(
            mods_root,
            late,
            late_facts,
        ) + mod_roots(mods_root, early, early_facts));
    }
}

/// The directories of the enabled mods that are searched for plugins, highest priority first.
/// `facts` says of each mod, in the order of `names`, which of its directories exist; a mod
/// without an entry has none.
pub fn mo2_additional_plugin_roots(
    mods_root: &str,
    names: &Vec<String>,
    facts: &Vec<ModDirFacts>,
) -> (r: Vec<JoinedPath>)
    ensures
        path_views(r@) == mod_roots(mods_root@, texts(names@), facts_for(facts@, names@.len())),
{
    let mut out: Vec<JoinedPath> = Vec::new();
    let ghost all = texts(names@);
    let ghost known = facts_for(facts@, names@.len());
    let mut i: usize = names.len();
    assert(all.take(all.len() as int) =~= all);
    assert(known.take(all.len() as int) =~= known);
    assert(path_views(out@) =~= Seq::<PathView>::empty());
    assert(mod_roots(mods_root@, all, known) =~= path_views(out@) + mod_roots(
        mods_root@,
        all.take(i as int),
        known.take(i as int),
    ));
    while i > 0
        invariant
            i <= names@.len(),
            all == texts(names@),
            known == facts_for(facts@, names@.len()),
            mod_roots(mods_root@, all, known) == path_views(out@) + mod_roots(
                mods_root@,
                all.take(i as int),
                known.take(i as int),
            ),
        decreases i,
    {
        i -= 1;
        let ghost before = path_views(out@);
        let fact = if i < facts.len() {
            facts[i]
        } else {
            ModDirFacts { data: false, own: false }
        };
        assert(all.take(i + 1).drop_last() =~= all.take(i as int));
        assert(known.take(i + 1).drop_last() =~= known.take(i as int));
        assert(known.take(i + 1).last() == fact);
        assert(all.take(i + 1).last() == names@[i as int]@);
        let own = JoinedPath::at(mods_root).join(names[i].as_str());
        if fact.data {
            let data = own.join("Data");
            out.push(data);
            assert(path_views(out@) =~= before.push(data@));
            assert(mod_roots(mods_root@, all, known) =~= path_views(out@) + mod_roots(
                mods_root@,
                all.take(i as int),
                known.take(i as int),
            ));
        } else if fact.own {
            out.push(own);
            assert(path_views(out@) =~= before.push(own@));
            assert(mod_roots(mods_root@, all, known) =~= path_views(out@) + mod_roots(
                mods_root@,
                all.take(i as int),
                known.take(i as int),
            ));
        }
    }
    assert(mod_roots(mods_root@, all, known) =~= path_views(out@));
    out
}

/// What is known of each of `n` mods; of those past the end of `facts`, that nothing exists.
pub open spec fn facts_for(facts: Seq<ModDirFacts>, n: nat) -> Seq<ModDirFacts> {
    Seq::new(
        n,
        |i: int|
            if i < facts.len() {
                facts[i]
            } else {
                ModDirFacts { data: false, own: false }
            },
    )
}

/// The directories that a request adds itself: every entry that is more than whitespace.
pub open spec fn listed_paths(entries: Seq<Seq<char>>) -> Seq<PathView>
    decreases entries.len(),
{
    if entries.len() == 0 {
        Seq::empty()
    } else {
        let rest = listed_paths(entries.drop_last());
        if trimmed(entries.last()).len() > 0 {
            rest.push(path_at(trimmed(entries.last())))
        } else {
            rest
        }
    }
}

/// The directories that a request adds to the game's own, in the order of their priority: those
/// it lists, then those of the mods.
pub open spec fn additional_paths(
    listed: Option<Seq<Seq<char>>>,
    roots: Seq<PathView>,
) -> Seq<PathView> {
    match listed {
        Some(entries) => listed_paths(entries) + roots,
        None => roots,
    }
}

/// The directories that a request adds to the game's own, given those of its mods.
pub fn collect_additional_data_paths(
    listed: &Option<Vec<String>>,
    roots: Vec<JoinedPath>,
) -> (r: Vec<JoinedPath>)
    ensures
        path_views(r@) == additional_paths(opt_texts(*listed), path_views(roots@)),
{
    let mut out: Vec<JoinedPath> = Vec::new();
    assert(path_views(out@) =~= Seq::<PathView>::empty());
    if let Some(entries) = listed {
        let ghost all = texts(entries@);
        let mut i: usize = 0;
        assert(path_views(out@) =~= listed_paths(all.take(0)));
        while i < entries.len()
            invariant
                i <= entries@.len(),
                all == texts(entries@),
                path_views(out@) == listed_paths(all.take(i as int)),
            decreases entries@.len() - i,
        {
            let ghost before = path_views(out@);
            assert(all.take(i + 1).drop_last() =~= all.take(i as int));
            assert(all.take(i + 1).last() == entries@[i as int]@);
            let t = trim(entries[i].as_str());
            if !t.as_str().is_empty() {
                let p = JoinedPath::at(t.as_str());
                out.push(p);
                assert(path_views(out@) =~= before.push(p@));
            }
            i += 1;
        }
        assert(all.take(all.len() as int) =~= all);
    }
    let ghost before = path_views(out@);
    let mut rest = roots;
    out.append(&mut rest);
    assert(path_views(out@) =~= before + path_views(roots@));
    assert(opt_texts(*listed) is None ==> path_views(out@) =~= path_views(roots@));
    out
}

/// Mods are looked up exactly where a mods folder is given. It needs a profile directory; both are
/// taken trimmed.
pub proof fn law_when_mods_are_looked_up(
    mods: Option<Seq<char>>,
    profile: Option<Seq<char>>,
    s: Mo2Scan,
)
    ensures
        ({
            let wanted = mods is Some && trimmed(mods->0).len() > 0;
            let known = profile is Some && trimmed(profile->0).len() > 0;
            let r = scan_wanted(mods, profile);
            &&& !wanted ==> r == Ok::<Option<Mo2ScanView>, ErrorView>(None)
            &&& wanted && !known ==> r == Err::<Option<Mo2ScanView>, ErrorView>(
                ErrorView::ProfileRequiredForMods,
            )
            &&& wanted && known ==> {
                &&& r is Ok
                &&& r->Ok_0 is Some
                &&& r->Ok_0->0.mods_root == trimmed(mods->0)
                &&& r->Ok_0->0.profile_dir == trimmed(profile->0)
            }
        }),
        s@.mods_root == s.mods_root@,
        s@.profile_dir == s.profile_dir@,
{
}

/// The mods of a profile are those that its `modlist.txt` enables; a list that is not there or
/// cannot be read is a failure that says where it should be.
pub proof fn law_modlist_is_read(profile_dir: Seq<char>, path: String, cause: String, text: String)
    ensures
        modlist_outcome(profile_dir, ModlistRead::NotAFile) == Err::<Seq<Seq<char>>, ErrorView>(
            ErrorView::ModlistNotFound(profile_dir),
        ),
        modlist_outcome(profile_dir, (ModlistRead::Unreadable { path, cause })) == Err::<
            Seq<Seq<char>>,
            ErrorView,
        >((ErrorView::ReadFailed { path: path@, cause: cause@ })),
        modlist_outcome(profile_dir, ModlistRead::Text(text)) == Ok::<Seq<Seq<char>>, ErrorView>(
            enabled_mods(text@),
        ),
{
}

/// A mod is searched in `Data` in its own directory, where that is there, and otherwise in its own
/// directory, where that is there; a mod that has neither is not searched.
pub proof fn law_where_a_mod_is_searched(
    mods_root: Seq<char>,
    name: Seq<char>,
    facts: ModDirFacts,
)
    ensures
        ({
            let roots = mod_roots(mods_root, seq![name], seq![facts]);
            &&& roots.len() == if facts.data || facts.own {
                1int
            } else {
                0int
            }
            &&& facts.data || facts.own ==> roots[0].base == mods_root
            &&& facts.data ==> roots[0].parts == seq![name, "Data"@]
            &&& !facts.data && facts.own ==> roots[0].parts == seq![name]
        }),
        mod_dir(mods_root, name).base == mods_root,
        mod_dir(mods_root, name).parts == seq![name],
{
    reveal_with_fuel(mod_roots, 2);
    assert(mod_dir(mods_root, name).parts =~= seq![name]);
    assert(mod_dir(mods_root, name).join("Data"@).parts =~= seq![name, "Data"@]);
    assert(seq![name].drop_last() =~= Seq::<Seq<char>>::empty());
}

/// What is known of mods is taken as it is; of those of which nothing is known, that they have no
/// directory.
pub proof fn law_facts_of_mods(facts: Seq<ModDirFacts>, n: nat)
    ensures
        facts_for(facts, n).len() == n,
        forall|i: int|
            0 <= i < n && i < facts.len() ==> #[trigger] facts_for(facts, n)[i] == facts[i],
        forall|i: int|
            facts.len() <= i < n ==> !(#[trigger] facts_for(facts, n)[i]).data && !facts_for(
                facts,
                n,
            )[i].own,
{
}

/// The directories that a request lists count as they stand there, trimmed, without those of which
/// nothing is left; those of the mods come after all of them.
pub proof fn law_added_directories(entries: Seq<Seq<char>>, roots: Seq<PathView>)
    ensures
        additional_paths(None, roots) == roots,
        additional_paths(Some(entries), roots) == listed_paths(entries) + roots,
        listed_paths(entries).len() == entries.map_values(|s: Seq<char>| trimmed(s)).filter(
            |s: Seq<char>| s.len() > 0,
        ).len(),
        forall|i: int|
            0 <= i < listed_paths(entries).len() ==> (#[trigger] listed_paths(
                entries,
            )[i]).parts.len() == 0 && listed_paths(entries)[i].base == entries.map_values(
                |s: Seq<char>| trimmed(s),
            ).filter(|s: Seq<char>| s.len() > 0)[i],
    decreases entries.len(),
{
    reveal(Seq::filter);
    let t = |s: Seq<char>| trimmed(s);
    let f = |s: Seq<char>| s.len() > 0;
    if entries.len() > 0 {
        let rest = entries.drop_last();
        law_added_directories(rest, roots);
        assert(entries.map_values(t).drop_last() =~= rest.map_values(t));
        assert(entries.map_values(t).last() == trimmed(entries.last()));
        let before = listed_paths(rest);
        assert forall|i: int| 0 <= i < listed_paths(entries).len() implies (#[trigger] listed_paths(
            entries,
        )[i]).parts.len() == 0 && listed_paths(entries)[i].base == entries.map_values(t).filter(
            f,
        )[i] by {
            if i < before.len() {
                assert(listed_paths(entries)[i] == before[i]);
            }
        }
    }
}

} // verus!
