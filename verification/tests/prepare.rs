use loot_mcp::cache::{
    prep_cache_entry_fresh, prep_lookup, prep_outcome, request_layout_probes, tag_without_hit,
    watched_files, FileFacts, PrepCache, PrepCacheKey, PrepCacheTag, PrepLookup, WatchedFacts,
};
use loot_mcp::errors::LootError;
use loot_mcp::layout::LayoutFacts;
use loot_mcp::mods::{ModDirFacts, ModlistRead};
use loot_mcp::paths::JoinedPath;
use loot_mcp::plugin_index::index_directories;
use loot_mcp::prepare::{
    prepare_eval_game_inner, run_read_load_order_via_libloadorder, Configured, GameOpening,
    ListAnswers, ListFacts, OrderAnswers, PathCollection, PathSetting, SetupAnswers,
};
use loot_mcp::request::{EvalRequest, GeneralMessageMinSeverity, PluginMetadataContent};

fn some(s: &str) -> Option<String> {
    Some(s.to_string())
}

fn names(v: &[&str]) -> Vec<String> {
    v.iter().map(|s| s.to_string()).collect()
}

fn shown(p: &JoinedPath) -> String {
    let mut all: Vec<String> = vec![p.base.clone()];
    all.extend(p.parts.iter().cloned());
    all.join("/")
}

fn all_shown(v: &[JoinedPath]) -> Vec<String> {
    v.iter().map(shown).collect()
}

fn request() -> EvalRequest {
    EvalRequest {
        game_type: "SkyrimSE".to_string(),
        game_path: "/game".to_string(),
        game_local_path: some(" /profile "),
        loot_data_path: None,
        loot_game_folder: None,
        masterlist_path: None,
        prelude_path: None,
        userlist_path: None,
        additional_data_paths: Some(names(&["/extra", " "])),
        mo2_mods_path: some("/mods"),
        include_plugin_metadata: false,
        plugin_metadata_content: PluginMetadataContent::Full,
        plugin_metadata_offset: 0,
        plugin_metadata_limit: None,
        include_master_header_issues: false,
        plugin_problems_include_requirements_load_after: false,
        general_messages_min_severity: GeneralMessageMinSeverity::Say,
        include_load_order_suggested: true,
        load_order_use_libloadorder: false,
    }
}

fn path_setting(req: &EvalRequest) -> PathSetting<'_> {
    let opening = GameOpening::plan(req).unwrap();
    assert_eq!(opening.local_path, some("/profile"));
    let reading = match opening.opened(Ok(())).unwrap() {
        PathCollection::Mods(m) => m,
        PathCollection::Known(_) => panic!("the mods have to be read"),
    };
    assert_eq!(shown(&reading.path()), "/profile/modlist.txt");
    let probing = reading.read(ModlistRead::Text("+Low\n+High\n".to_string())).unwrap();
    let dirs = probing.directories();
    assert_eq!(shown(&dirs[1].data), "/mods/High/Data");
    let facts = vec![ModDirFacts { data: true, own: true }, ModDirFacts { data: false, own: true }];
    probing.probed(&facts)
}

fn configured(req: &EvalRequest) -> Configured<'_> {
    let setting = path_setting(req);
    assert!(setting.is_needed());
    assert_eq!(all_shown(&setting.additional), vec!["/extra", "/mods/High", "/mods/Low/Data"]);
    setting.set(Ok(())).unwrap()
}

fn layout() -> LayoutFacts {
    LayoutFacts { games_masterlist: true, legacy_masterlist: false, games_dir: true }
}

fn list_facts() -> ListFacts {
    ListFacts {
        lock_poisoned: false,
        masterlist_exists: true,
        prelude_exists: true,
        userlist_exists: true,
        masterlist_shown: "/loot/ml".to_string(),
    }
}

#[test]
fn a_game_is_prepared_step_by_step() {
    let req = request();
    let setup = configured(&req);
    let probes = setup.layout_probes("/loot");
    assert_eq!(
        shown(&probes.games_masterlist),
        "/loot/games/Skyrim Special Edition/masterlist.yaml"
    );
    assert_eq!(shown(&setup.shared_prelude("/loot")), "/loot/prelude/prelude.yaml");
    let lists = setup.choose_lists("/loot", layout(), true);
    assert_eq!(shown(&lists.masterlist), "/loot/games/Skyrim Special Edition/masterlist.yaml");
    assert_eq!(shown(&lists.prelude), "/loot/prelude/prelude.yaml");
    assert_eq!(shown(&lists.userlist), "/loot/games/Skyrim Special Edition/userlist.yaml");
    let checked = lists.check(list_facts()).unwrap();
    assert!(checked.with_prelude && checked.with_userlist);
    let ordering = checked.loaded(Ok(()), Ok(()), true).unwrap();
    let own = vec![JoinedPath::at("/game/dlc")];
    let locating = ordering.ordered(Ok(()), names(&["A.esp", "B.esp"]), own).unwrap();
    let dirs = locating.directories();
    assert_eq!(
        all_shown(&dirs),
        vec!["/extra", "/mods/High", "/mods/Low/Data", "/game/Data"]
    );
    let listings = vec![names(&[]), names(&["a.esp"]), names(&["A.esp"]), names(&["A.esp"])];
    let index = index_directories(&dirs, &listings);
    assert!(locating.search("A.esp", &index).is_empty());
    assert_eq!(
        all_shown(&locating.search("B.esp", &index)),
        vec!["/game/Data/B.esp", "/game/Data/B.esp.ghost"]
    );
    let headers = locating.located(&index, &vec![vec![], vec![false, true]]);
    assert_eq!(all_shown(&headers.paths), vec!["/mods/High/a.esp", "/game/Data/B.esp.ghost"]);
    let prep = headers.loaded(Ok(())).unwrap();
    assert_eq!(prep.current, names(&["A.esp", "B.esp"]));
    assert_eq!(prep.masterlist_path_str, "/loot/ml");
    assert!(prep.prelude_loaded && prep.userlist_loaded);
}

#[test]
fn a_game_searches_its_own_directories_where_none_are_set() {
    let mut req = request();
    req.mo2_mods_path = None;
    req.additional_data_paths = None;
    let setting = match GameOpening::plan(&req).unwrap().opened(Ok(())).unwrap() {
        PathCollection::Known(s) => s,
        PathCollection::Mods(_) => panic!("no mods are asked for"),
    };
    assert!(!setting.is_needed());
    let setup = setting.set(Err("not done".to_string())).unwrap();
    let checked = setup.choose_lists("/loot", layout(), false).check(list_facts()).unwrap();
    let ordering = checked.loaded(Ok(()), Ok(()), false).unwrap();
    assert!(!ordering.userlist_loaded);
    let own = vec![JoinedPath::at("/game/dlc")];
    let locating = ordering.ordered(Ok(()), names(&["A.esp"]), own).unwrap();
    assert_eq!(all_shown(&locating.directories()), vec!["/game/dlc", "/game/Data"]);
}

#[test]
fn opening_a_game_can_fail() {
    let mut req = request();
    req.game_type = "Pong".to_string();
    let e = GameOpening::plan(&req).err().unwrap();
    assert_eq!(e.message(), "unknown game_type: \"Pong\" (use e.g. SkyrimSE, Fallout4)");
    let req = request();
    let e = GameOpening::plan(&req).unwrap().opened(Err("x".to_string())).err().unwrap();
    assert_eq!(e.message(), "Game init: x");
    let mut req = request();
    req.game_local_path = some("");
    let opening = GameOpening::plan(&req).unwrap();
    assert_eq!(opening.local_path, None);
    let e = opening.opened(Ok(())).err().unwrap();
    assert!(matches!(e, LootError::ProfileRequiredForMods));
    let req = request();
    let e = path_setting(&req).set(Err("x".to_string())).err().unwrap();
    assert_eq!(e.message(), "set_additional_data_paths: x");
}

#[test]
fn loading_the_lists_can_fail() {
    let req = request();
    let lists = || configured(&req).choose_lists("/loot", layout(), false);
    let e = lists().check(ListFacts {
        lock_poisoned: true,
        masterlist_exists: false,
        ..list_facts()
    });
    assert_eq!(e.err().unwrap().message(), "LOOT database lock poisoned");
    let e = lists().check(ListFacts { masterlist_exists: false, ..list_facts() });
    assert_eq!(
        e.err().unwrap().message(),
        "masterlist not found at /loot/ml (run LOOT once to download, or set masterlist_path)"
    );
    let bad = || Err("x".to_string());
    let e = lists().check(list_facts()).unwrap().loaded(bad(), bad(), true);
    assert_eq!(e.err().unwrap().message(), "load_masterlist_with_prelude: x");
    let bare = ListFacts { prelude_exists: false, userlist_exists: false, ..list_facts() };
    let e = lists().check(bare).unwrap().loaded(bad(), bad(), true);
    assert_eq!(e.err().unwrap().message(), "load_masterlist: x");
    let e = lists().check(list_facts()).unwrap().loaded(Ok(()), bad(), true);
    assert_eq!(e.err().unwrap().message(), "load_userlist: x");
    let bare = ListFacts { userlist_exists: false, ..list_facts() };
    assert!(lists().check(bare).unwrap().loaded(Ok(()), bad(), false).is_ok());
}

#[test]
fn a_masterlist_that_is_given_is_shown_as_given() {
    let mut req = request();
    req.masterlist_path = some(" /my/list.yaml ");
    let lists = configured(&req).choose_lists("/loot", layout(), false);
    assert_eq!(shown(&lists.masterlist), "/my/list.yaml");
    assert_eq!(lists.check(list_facts()).unwrap().masterlist_path_str, "/my/list.yaml");
    let lists = configured(&req).choose_lists("/loot", layout(), false);
    let e = lists.check(ListFacts { masterlist_exists: false, ..list_facts() });
    assert_eq!(
        e.err().unwrap().message(),
        "masterlist not found at /my/list.yaml (run LOOT once to download, or set masterlist_path)"
    );
}

#[test]
fn the_layout_is_looked_up_for_a_key() {
    let mut req = request();
    let probes = request_layout_probes(&req, "/loot").unwrap();
    assert_eq!(
        shown(&probes.games_masterlist),
        "/loot/games/Skyrim Special Edition/masterlist.yaml"
    );
    assert_eq!(shown(&probes.legacy_masterlist), "/loot/Skyrim Special Edition/masterlist.yaml");
    assert_eq!(shown(&probes.games_dir), "/loot/games");
    req.loot_data_path = some("/data");
    req.loot_game_folder = some("Mine");
    let probes = request_layout_probes(&req, "/loot").unwrap();
    assert_eq!(shown(&probes.legacy_masterlist), "/data/Mine/masterlist.yaml");
    req.game_type = "Pong".to_string();
    assert!(request_layout_probes(&req, "/loot").is_err());
}

#[test]
fn loading_the_order_can_fail() {
    let req = request();
    let ordering = || {
        let lists = configured(&req).choose_lists("/loot", layout(), false);
        lists.check(list_facts()).unwrap().loaded(Ok(()), Ok(()), true).unwrap()
    };
    let e = ordering().ordered(Err("x".to_string()), Vec::new(), Vec::new());
    assert_eq!(e.err().unwrap().message(), "load_current_load_order_state: x");
    let e = ordering().ordered(Ok(()), Vec::new(), Vec::new());
    assert!(matches!(e.err().unwrap(), LootError::EmptyLoadOrder));
    let locating = ordering().ordered(Ok(()), names(&["A.esp"]), Vec::new()).unwrap();
    let index = index_directories(&Vec::new(), &Vec::new());
    let headers = locating.located(&index, &Vec::new());
    assert_eq!(all_shown(&headers.paths), vec!["/game/Data/A.esp"]);
    let e = headers.loaded(Err("x".to_string())).unwrap_err();
    assert_eq!(e.message(), "load_plugin_headers: x");
}

#[test]
fn libloadorder_gives_its_order() {
    let req = request();
    let order = configured(&req).library_order(Ok(()), Ok(true), names(&["A.esp"])).unwrap();
    assert_eq!(order.load_order, names(&["A.esp"]));
    assert!(order.ambiguous);
    let e = configured(&req).library_order(Err("x".to_string()), Ok(true), Vec::new());
    assert_eq!(e.unwrap_err().message(), "load_current_load_order_state: x");
    let e = configured(&req).library_order(Ok(()), Err("x".to_string()), Vec::new());
    assert_eq!(e.unwrap_err().message(), "is_load_order_ambiguous: x");
}

fn file(exists: bool, is_file: bool, n: u64) -> FileFacts {
    FileFacts { exists, is_file, modified_secs: Some(n), len: Some(n + 100) }
}

fn watched() -> WatchedFacts {
    WatchedFacts {
        masterlist: file(false, false, 1),
        userlist: file(true, false, 2),
        loadorder: file(true, true, 3),
        plugins: file(true, false, 4),
        modlist: FileFacts { exists: true, is_file: true, modified_secs: None, len: None },
    }
}

#[test]
fn a_key_tells_requests_apart() {
    let mut req = request();
    let files = watched_files(&req, "/loot", layout()).unwrap();
    assert_eq!(shown(&files.masterlist), "/loot/games/Skyrim Special Edition/masterlist.yaml");
    assert_eq!(shown(&files.userlist), "/loot/games/Skyrim Special Edition/userlist.yaml");
    assert_eq!(shown(&files.loadorder), "/profile/loadorder.txt");
    assert_eq!(shown(&files.plugins), "/profile/plugins.txt");
    assert_eq!(shown(&files.modlist), "/profile/modlist.txt");
    let key = PrepCacheKey::from_req(&req, "/loot", &watched()).unwrap();
    assert_eq!(key.game_path, "/game");
    assert_eq!(key.game_local_path, "/profile");
    assert_eq!(key.loot_data_path, "/loot");
    assert_eq!(key.mo2_mods_path, "/mods");
    assert_eq!(key.loot_game_folder, "Skyrim Special Edition");
    assert_eq!(key.additional_paths_sig, "/extra\u{1e} ");
    assert_eq!((key.masterlist_mtime, key.masterlist_len), (1, 101));
    assert_eq!((key.userlist_mtime, key.userlist_len), (2, 0));
    assert_eq!((key.loadorder_mtime, key.loadorder_len), (3, 103));
    assert_eq!((key.plugins_mtime, key.plugins_len), (0, 0));
    assert_eq!((key.modlist_mtime, key.modlist_len), (0, 0));
    assert!(key.same(&PrepCacheKey::from_req(&req, "/loot", &watched()).unwrap()));
    assert!(!key.same(&PrepCacheKey::from_req(&req, "/other", &watched()).unwrap()));
    let changed = WatchedFacts { loadorder: file(true, true, 9), ..watched() };
    assert!(!key.same(&PrepCacheKey::from_req(&req, "/loot", &changed).unwrap()));
    req.include_plugin_metadata = true;
    req.game_path = " /game\t".to_string();
    assert!(key.same(&PrepCacheKey::from_req(&req, "/loot", &watched()).unwrap()));
    req.game_type = "Pong".to_string();
    assert!(PrepCacheKey::from_req(&req, "/loot", &watched()).is_err());
    assert!(watched_files(&req, "/loot", layout()).is_err());
}

#[test]
fn a_prepared_game_is_kept() {
    let req = request();
    let key = || PrepCacheKey::from_req(&req, "/loot", &watched()).unwrap();
    let other = || PrepCacheKey::from_req(&req, "/other", &watched()).unwrap();
    let mut cache: PrepCache<u32> = PrepCache::new();
    assert!(matches!(cache.lookup(&key(), 0, None), PrepLookup::Absent));
    assert!(cache.current().is_none());
    assert_eq!(cache.settle(key(), 7, 1_000, None), PrepCacheTag::Miss);
    assert!(matches!(cache.lookup(&key(), u128::MAX, None), PrepLookup::Hit(7)));
    assert!(matches!(cache.lookup(&other(), 1_000, None), PrepLookup::Absent));
    assert_eq!(cache.settle(key(), 8, 2_000, None), PrepCacheTag::Hit);
    assert_eq!(cache.current(), Some(&7));
    assert!(matches!(cache.lookup(&key(), 5_000_000_999, Some(5)), PrepLookup::Hit(7)));
    assert!(matches!(cache.lookup(&key(), 5_000_001_000, Some(5)), PrepLookup::Expired));
    assert!(matches!(cache.lookup(&key(), 9_000_001_000, Some(5)), PrepLookup::Expired));
    assert_eq!(cache.settle(key(), 9, 5_000_001_000, Some(5)), PrepCacheTag::Miss);
    assert_eq!(cache.current(), Some(&9));
    assert_eq!(cache.settle(other(), 10, 5_000_001_001, Some(5)), PrepCacheTag::Miss);
    assert!(matches!(cache.lookup(&key(), 5_000_001_002, Some(5)), PrepLookup::Absent));
}

#[test]
fn failures_are_not_kept() {
    let req = request();
    let key = || PrepCacheKey::from_req(&req, "/loot", &watched()).unwrap();
    let mut cache: PrepCache<u32> = PrepCache::new();
    let (r, tag) = prep_outcome(&mut cache, true, key(), Err(LootError::EmptyLoadOrder), 0, None);
    assert!(matches!(r, Err(LootError::EmptyLoadOrder)));
    assert_eq!(tag, PrepCacheTag::Miss);
    assert!(cache.current().is_none());
    let (r, tag) = prep_outcome(&mut cache, true, key(), Ok(7), 0, None);
    assert!(r.is_ok());
    assert_eq!(tag, PrepCacheTag::Miss);
    assert!(matches!(prep_lookup(&cache, true, &key(), 0, None), PrepLookup::Hit(7)));
    let (r, tag) = prep_outcome(&mut cache, true, key(), Ok(8), 0, None);
    assert!(r.is_ok());
    assert_eq!(tag, PrepCacheTag::Hit);
    let (r, _) = prep_outcome(&mut cache, true, key(), Err(LootError::CacheLock), 0, None);
    assert!(r.is_err());
    assert_eq!(cache.current(), Some(&7));
}

#[test]
fn a_cache_that_is_off_is_passed_by() {
    let req = request();
    let key = || PrepCacheKey::from_req(&req, "/loot", &watched()).unwrap();
    let mut cache: PrepCache<u32> = PrepCache::new();
    let (r, tag) = prep_outcome(&mut cache, false, key(), Ok(7), 0, None);
    assert!(r.is_ok());
    assert_eq!(tag, PrepCacheTag::Disabled);
    assert!(cache.current().is_none());
    let (r, tag) = prep_outcome(&mut cache, false, key(), Err(LootError::CacheLock), 0, None);
    assert!(r.is_err());
    assert_eq!(tag, PrepCacheTag::Disabled);
    assert_eq!(cache.settle(key(), 9, 0, None), PrepCacheTag::Miss);
    assert!(matches!(prep_lookup(&cache, false, &key(), 0, None), PrepLookup::Absent));
    assert!(matches!(prep_lookup(&cache, true, &key(), 0, None), PrepLookup::Hit(9)));
    assert_eq!(tag_without_hit(true), PrepCacheTag::Miss);
    assert_eq!(tag_without_hit(false), PrepCacheTag::Disabled);
}

#[test]
fn age_is_counted_in_seconds() {
    assert!(prep_cache_entry_fresh(10, 10, Some(1)));
    assert!(prep_cache_entry_fresh(10, 1_000_000_009, Some(1)));
    assert!(!prep_cache_entry_fresh(10, 1_000_000_010, Some(1)));
    assert!(prep_cache_entry_fresh(10, 5, Some(1)));
    assert!(prep_cache_entry_fresh(0, u128::MAX, None));
}

fn setup_answers() -> SetupAnswers {
    SetupAnswers {
        opened: Ok(()),
        modlist: ModlistRead::Text("+Mod\n".to_string()),
        mod_dirs: vec![ModDirFacts { data: false, own: true }],
        paths_set: Ok(()),
    }
}

fn list_answers() -> ListAnswers {
    ListAnswers {
        layout: layout(),
        shared_prelude_exists: false,
        facts: list_facts(),
        masterlist: Ok(()),
        userlist: Ok(()),
        userlist_exists_after: true,
    }
}

fn order_answers() -> OrderAnswers {
    OrderAnswers {
        state: Ok(()),
        load_order: names(&["A.esp", "B.esp"]),
        own_directories: vec![JoinedPath::at("/game/dlc")],
        listings: vec![names(&["x.txt"]), names(&["a.esp"]), names(&["A.esp", "B.esp"])],
        found: Vec::new(),
        headers: Ok(()),
    }
}

#[test]
fn the_whole_preparation_is_one_walk() {
    let req = request();
    let p = prepare_eval_game_inner(
        &req,
        "/loot",
        setup_answers(),
        list_answers(),
        order_answers(),
    )
    .unwrap();
    assert_eq!(all_shown(&p.additional), vec!["/extra", "/mods/Mod"]);
    assert_eq!(shown(&p.masterlist), "/loot/games/Skyrim Special Edition/masterlist.yaml");
    assert_eq!(shown(&p.prelude), "/loot/games/Skyrim Special Edition/prelude.yaml");
    assert_eq!(shown(&p.userlist), "/loot/games/Skyrim Special Edition/userlist.yaml");
    assert_eq!(all_shown(&p.plugin_paths), vec!["/mods/Mod/a.esp", "/game/Data/B.esp"]);
    assert_eq!(p.prepared.current, names(&["A.esp", "B.esp"]));
    assert!(p.prepared.prelude_loaded && p.prepared.userlist_loaded);
}

#[test]
fn the_first_failure_ends_the_preparation() {
    let req = request();
    let bad = || Err("x".to_string());
    let why = |s: SetupAnswers, l: ListAnswers, o: OrderAnswers| {
        prepare_eval_game_inner(&req, "/loot", s, l, o).unwrap_err().message()
    };
    let no_lists = || ListAnswers { masterlist: bad(), userlist: bad(), ..list_answers() };
    let no_order = || OrderAnswers { state: bad(), load_order: Vec::new(), ..order_answers() };
    let s = SetupAnswers { opened: bad(), modlist: ModlistRead::NotAFile, ..setup_answers() };
    assert_eq!(why(s, no_lists(), no_order()), "Game init: x");
    let s = SetupAnswers { modlist: ModlistRead::NotAFile, paths_set: bad(), ..setup_answers() };
    assert_eq!(
        why(s, no_lists(), no_order()),
        "modlist.txt not found under profile /profile (required when mo2_mods_path is set)"
    );
    let s = SetupAnswers { paths_set: bad(), ..setup_answers() };
    assert_eq!(why(s, no_lists(), no_order()), "set_additional_data_paths: x");
    assert_eq!(
        why(setup_answers(), no_lists(), no_order()),
        "load_masterlist_with_prelude: x"
    );
    assert_eq!(
        why(setup_answers(), list_answers(), no_order()),
        "load_current_load_order_state: x"
    );
    let empty = OrderAnswers { load_order: Vec::new(), headers: bad(), ..order_answers() };
    assert!(why(setup_answers(), list_answers(), empty).starts_with("no load order loaded"));
    let headers = OrderAnswers { headers: bad(), ..order_answers() };
    assert_eq!(why(setup_answers(), list_answers(), headers), "load_plugin_headers: x");
}

#[test]
fn the_slow_way_is_one_walk_too() {
    let req = request();
    let out = run_read_load_order_via_libloadorder(
        &req,
        setup_answers(),
        Ok(()),
        Ok(false),
        names(&["A.esp"]),
    )
    .unwrap();
    assert_eq!(out.load_order, names(&["A.esp"]));
    assert_eq!(out.plugin_count, 1);
    assert_eq!(out.source, some("libloadorder"));
    assert_eq!(out.load_order_ambiguous, Some(false));
    let s = SetupAnswers { opened: Err("x".to_string()), ..setup_answers() };
    let e = run_read_load_order_via_libloadorder(&req, s, Ok(()), Ok(false), Vec::new());
    assert_eq!(e.unwrap_err().message(), "Game init: x");
    let e = run_read_load_order_via_libloadorder(
        &req,
        setup_answers(),
        Ok(()),
        Err("y".to_string()),
        Vec::new(),
    );
    assert_eq!(e.unwrap_err().message(), "is_load_order_ambiguous: y");
}
