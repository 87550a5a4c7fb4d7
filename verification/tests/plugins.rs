use loot_mcp::game::GameType;
use loot_mcp::masters::{collect_master_header_issues, load_order_index_case_insensitive};
use loot_mcp::names::NameMap;
use loot_mcp::paging::{page_out, plugin_names_page};
use loot_mcp::paths::JoinedPath;
use loot_mcp::plugin_index::{
    absolute_plugin_paths_for_libloot, directories_to_index, first_existing_plugin_file,
    index_directories, plugin_file_index_key, plugin_search, scan_flat_plugins_into_index,
    search_is_settled, PluginIndex,
};

fn names(v: &[&str]) -> Vec<String> {
    v.iter().map(|s| s.to_string()).collect()
}

fn shown(p: &JoinedPath) -> String {
    let mut all: Vec<String> = vec![p.base.clone()];
    all.extend(p.parts.iter().cloned());
    all.join("/")
}

fn all_shown(v: &[JoinedPath]) -> Vec<String> {
    v.iter().map(shown).collect()
}

#[test]
fn plugin_names_page_slice() {
    let cur: Vec<String> = (0..5).map(|i: usize| format!("p{i}.esp")).collect();
    let a: Vec<_> = plugin_names_page(&cur, 0, None).into_iter().cloned().collect();
    assert_eq!(a.len(), 5);
    let b: Vec<_> = plugin_names_page(&cur, 2, Some(2)).into_iter().cloned().collect();
    assert_eq!(b, vec!["p2.esp".to_string(), "p3.esp".to_string()]);
    let c: Vec<_> = plugin_names_page(&cur, 4, Some(10)).into_iter().cloned().collect();
    assert_eq!(c, vec!["p4.esp".to_string()]);
    assert!(plugin_names_page(&cur, 0, Some(0)).is_empty());
}

#[test]
fn plugin_index_first_scanned_root_wins() {
    let high = JoinedPath::at("/t").join("high");
    let low = JoinedPath::at("/t").join("low");
    let mut idx = PluginIndex::new();
    scan_flat_plugins_into_index(&high, &names(&["Dup.esp"]), &mut idx);
    scan_flat_plugins_into_index(&low, &names(&["Dup.esp"]), &mut idx);
    assert_eq!(idx.get("dup.esp").map(shown), Some("/t/high/Dup.esp".to_string()));
}

#[test]
fn plugin_index_ghost_maps_to_base_name() {
    let root = JoinedPath::at("r");
    let mut idx = PluginIndex::new();
    scan_flat_plugins_into_index(&root, &names(&["Ghosty.esp.ghost"]), &mut idx);
    assert!(idx.contains_key("ghosty.esp"));
    assert_eq!(idx.get("ghosty.esp").map(shown), Some("r/Ghosty.esp.ghost".to_string()));
}

#[test]
fn only_plugins_are_indexed() {
    assert_eq!(plugin_file_index_key("A.ESP"), Some("a.esp".to_string()));
    assert_eq!(plugin_file_index_key("A.Esm.Ghost"), Some("a.esm".to_string()));
    assert_eq!(plugin_file_index_key("a.esl.ghost"), Some("a.esl".to_string()));
    assert_eq!(plugin_file_index_key(".esp"), Some(".esp".to_string()));
    assert_eq!(plugin_file_index_key("a.esp.bak"), None);
    assert_eq!(plugin_file_index_key("a.ghost"), None);
    assert_eq!(plugin_file_index_key("esp"), None);
    assert_eq!(plugin_file_index_key("\u{c4}B.esp"), Some("\u{c4}b.esp".to_string()));
}

#[test]
fn the_last_page_has_no_more() {
    let p = page_out(5, 2, 2);
    assert_eq!((p.total, p.offset, p.returned, p.has_more), (5, 2, 2, true));
    assert!(!page_out(5, 3, 2).has_more);
    assert!(!page_out(5, u32::MAX, 0).has_more);
    let cur = names(&["a", "b", "c", "d", "e"]);
    let first = plugin_names_page(&cur, 1, Some(2));
    let rest = plugin_names_page(&cur, 3, None);
    let all = plugin_names_page(&cur, 1, None);
    assert_eq!([first, rest].concat(), all);
    assert!(plugin_names_page(&cur, 9, None).is_empty());
}

#[test]
fn the_main_directory_comes_last() {
    let extra = vec![JoinedPath::at("/x"), JoinedPath::at("/y")];
    let dirs = directories_to_index(GameType::SkyrimSE, "/g", &extra);
    assert_eq!(all_shown(&dirs), vec!["/x", "/y", "/g/Data"]);
    assert!(directories_to_index(GameType::SkyrimSE, "/g", &Vec::new()).is_empty());
    assert!(directories_to_index(GameType::OpenMW, "/g", &extra).is_empty());
    assert!(directories_to_index(GameType::Starfield, "/g", &extra).is_empty());
}

#[test]
fn indexed_plugins_come_from_the_first_directory() {
    let extra = vec![JoinedPath::at("/x"), JoinedPath::at("/y")];
    let dirs = directories_to_index(GameType::SkyrimSE, "/g", &extra);
    let listings = vec![
        names(&["readme.txt", "Both.esp"]),
        names(&["both.esp", "Second.esm.ghost"]),
        names(&["Both.esp", "Second.esm", "Main.esl"]),
    ];
    let index = index_directories(&dirs, &listings);
    let order = names(&["BOTH.esp", "Second.esm", "main.esl", "None.esp", "Ghost.esp"]);
    assert!(plugin_search(GameType::SkyrimSE, "/g", &extra, "BOTH.esp", &index).is_empty());
    let search = plugin_search(GameType::SkyrimSE, "/g", &extra, "Ghost.esp", &index);
    assert_eq!(all_shown(&search), vec!["/g/Data/Ghost.esp", "/g/Data/Ghost.esp.ghost"]);
    let found = vec![vec![], vec![], vec![], vec![false, false], vec![false, true]];
    let paths = absolute_plugin_paths_for_libloot(
        GameType::SkyrimSE,
        "/g",
        &extra,
        &order,
        &index,
        &found,
    );
    assert_eq!(
        all_shown(&paths),
        vec![
            "/x/Both.esp",
            "/y/Second.esm.ghost",
            "/g/Data/Main.esl",
            "/g/Data/None.esp",
            "/g/Data/Ghost.esp.ghost",
        ]
    );
}

#[test]
fn without_additional_directories_names_stand_alone() {
    let order = names(&["a.esp"]);
    let none: Vec<JoinedPath> = Vec::new();
    let paths = absolute_plugin_paths_for_libloot(
        GameType::Skyrim,
        "/g",
        &none,
        &order,
        &PluginIndex::new(),
        &Vec::new(),
    );
    assert_eq!(all_shown(&paths), vec!["a.esp"]);
    assert!(paths[0].parts.is_empty());
}

#[test]
fn openmw_searches_backwards() {
    let extra = vec![JoinedPath::at("/x"), JoinedPath::at("/y")];
    let index = PluginIndex::new();
    let search = plugin_search(GameType::OpenMW, "/g", &extra, "a.esp", &index);
    assert_eq!(
        all_shown(&search),
        vec!["/y/a.esp", "/y/a.esp.ghost", "/x/a.esp", "/x/a.esp.ghost"]
    );
    let order = names(&["a.esp", "b.esp", "c.esp"]);
    let found = vec![vec![true], vec![false, false, true], vec![false, false, false, false]];
    let paths =
        absolute_plugin_paths_for_libloot(GameType::OpenMW, "/g", &extra, &order, &index, &found);
    assert_eq!(all_shown(&paths), vec!["/y/a.esp", "/x/b.esp", "/g/resources/vfs/c.esp"]);
}

#[test]
fn starfield_needs_the_main_file() {
    let extra = vec![JoinedPath::at("/x")];
    let index = PluginIndex::new();
    let search = plugin_search(GameType::Starfield, "/g", &extra, "a.esp", &index);
    assert_eq!(
        all_shown(&search),
        vec!["/g/Data/a.esp", "/g/Data/a.esp.ghost", "/x/a.esp", "/x/a.esp.ghost"]
    );
    let order = names(&["a.esp", "b.esp", "c.esp", "d.esp"]);
    let found = vec![
        vec![false, false],
        vec![true, false, true],
        vec![false, true, false, false],
        vec![true, true, false, true],
    ];
    let paths = absolute_plugin_paths_for_libloot(
        GameType::Starfield,
        "/g",
        &extra,
        &order,
        &index,
        &found,
    );
    assert_eq!(
        all_shown(&paths),
        vec!["/g/Data/a.esp", "/x/b.esp", "/g/Data/c.esp.ghost", "/x/d.esp.ghost"]
    );
}

#[test]
fn a_settled_search_stops() {
    assert!(search_is_settled(GameType::OpenMW, &vec![false, true]));
    assert!(!search_is_settled(GameType::OpenMW, &vec![false]));
    assert!(!search_is_settled(GameType::Skyrim, &Vec::new()));
    assert!(search_is_settled(GameType::Starfield, &vec![false, false]));
    assert!(!search_is_settled(GameType::Starfield, &vec![true]));
    assert!(!search_is_settled(GameType::Starfield, &vec![true, true]));
    assert!(search_is_settled(GameType::Starfield, &vec![true, false, true]));
    assert!(!search_is_settled(GameType::Starfield, &vec![true, false, false]));
    let extra = vec![JoinedPath::at("/x")];
    let index = PluginIndex::new();
    let order = names(&["a.esp", "a.esp"]);
    let found = vec![vec![true, false, true], vec![true, false, true, true]];
    let paths = absolute_plugin_paths_for_libloot(
        GameType::Starfield,
        "/g",
        &extra,
        &order,
        &index,
        &found,
    );
    assert_eq!(shown(&paths[0]), shown(&paths[1]));
}

#[test]
fn a_ghosted_file_stands_in() {
    let dir = JoinedPath::at("/d");
    assert_eq!(
        first_existing_plugin_file(&dir, "a.esp", true, true).map(|p| shown(&p)),
        Some("/d/a.esp".to_string())
    );
    assert_eq!(
        first_existing_plugin_file(&dir, "a.esp", false, true).map(|p| shown(&p)),
        Some("/d/a.esp.ghost".to_string())
    );
    assert!(first_existing_plugin_file(&dir, "a.esp", false, false).is_none());
}

#[test]
fn names_are_listed_in_order() {
    let mut m: NameMap<u64> = NameMap::new();
    m.insert("b".to_string(), 1);
    m.insert("\u{e4}".to_string(), 2);
    m.insert("B".to_string(), 3);
    m.insert("ab".to_string(), 4);
    m.insert("a".to_string(), 5);
    m.insert("b".to_string(), 6);
    assert_eq!(m.len(), 5);
    let listed: Vec<(&str, u64)> =
        m.entries().iter().map(|e| (e.name.as_str(), e.value)).collect();
    assert_eq!(listed, vec![("B", 3), ("a", 5), ("ab", 4), ("b", 6), ("\u{e4}", 2)]);
    assert_eq!(m.get("ab"), Some(&4));
    assert_eq!(m.get("c"), None);
    assert_eq!(m.into_entries().len(), 5);
}

#[test]
fn masters_are_checked() {
    let order = names(&["Skyrim.esm", "A.esp", "B.esp", "C.esp", "a.ESP"]);
    let masters = vec![
        Some(names(&[])),
        Some(names(&["skyrim.ESM", "b.esp", "Gone.esm", "A.esp"])),
        Some(names(&["Skyrim.esm", "A.esp"])),
        None,
        Some(names(&["B.esp"])),
    ];
    let issues = collect_master_header_issues(&order, &masters);
    assert_eq!(issues.len(), 2);
    assert_eq!(issues[0].plugin, "A.esp");
    assert_eq!(issues[0].missing_masters, vec!["Gone.esm"]);
    assert_eq!(issues[0].masters_after_plugin, vec!["b.esp", "A.esp"]);
    assert_eq!(issues[1].plugin, "a.ESP");
    assert!(issues[1].missing_masters.is_empty());
    assert_eq!(issues[1].masters_after_plugin, vec!["B.esp"]);
}

#[test]
fn a_sound_order_has_no_issues() {
    let order = names(&["Skyrim.esm", "Update.esm", "A.esp"]);
    let masters = vec![
        None,
        Some(names(&["SKYRIM.esm"])),
        Some(names(&["Skyrim.esm", "update.esm"])),
    ];
    assert!(collect_master_header_issues(&order, &masters).is_empty());
    let index = load_order_index_case_insensitive(&names(&["X.esp", "x.ESP", "y.esp"]));
    assert_eq!(index.get("x.esp"), Some(&0));
    assert_eq!(index.get("y.esp"), Some(&2));
    assert_eq!(index.get("Y.esp"), None);
}
