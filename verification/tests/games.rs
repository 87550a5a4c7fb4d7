use loot_mcp::game::{default_loot_folder, parse_game_type, plugins_data_root, GameType};
use loot_mcp::layout::{
    default_loot_data_path, default_prelude_path, game_folder, layout_probes, list_path,
    resolve_game_loot_dir, text_given_or, DataPathEnv, LayoutFacts,
};
use loot_mcp::paths::JoinedPath;
use loot_mcp::request::{
    merge_loot_eval_request, or_env_opt, or_env_str, GeneralMessageMinSeverity, LootEvaluateArgs,
    PluginMetadataContent, RequestDefaults,
};
use loot_mcp::settings::{
    diagnostics_enabled, diagnostics_log_path, parallel_metadata_enabled, phase_timing_active,
    prep_cache_enabled, prep_cache_ttl, timing_stderr_enabled, timings_json_enabled,
};

fn some(s: &str) -> Option<String> {
    Some(s.to_string())
}

fn shown(p: &JoinedPath) -> String {
    let mut all: Vec<String> = vec![p.base.clone()];
    all.extend(p.parts.iter().cloned());
    all.join("|")
}

#[test]
fn parse_game_type_aliases() {
    assert!(matches!(
        parse_game_type("SkyrimSE").unwrap(),
        GameType::SkyrimSE
    ));
    assert!(matches!(
        parse_game_type("Fallout 4").unwrap(),
        GameType::Fallout4
    ));
}

#[test]
fn every_game_id_is_known() {
    let ids = vec![
        ("Skyrim Special Edition", GameType::SkyrimSE),
        ("SSE", GameType::SkyrimSE),
        ("Skyrim", GameType::Skyrim),
        ("TES5", GameType::Skyrim),
        ("Skyrim VR", GameType::SkyrimVR),
        ("SkyrimVR", GameType::SkyrimVR),
        ("Fallout4", GameType::Fallout4),
        ("Fallout4VR", GameType::Fallout4VR),
        ("Fallout 4 VR", GameType::Fallout4VR),
        ("FalloutNV", GameType::FalloutNV),
        ("Fallout New Vegas", GameType::FalloutNV),
        ("FNV", GameType::FalloutNV),
        ("Fallout3", GameType::Fallout3),
        ("Fallout 3", GameType::Fallout3),
        ("Morrowind", GameType::Morrowind),
        ("Oblivion", GameType::Oblivion),
        ("Oblivion Remastered", GameType::OblivionRemastered),
        ("OblivionRemastered", GameType::OblivionRemastered),
        ("Starfield", GameType::Starfield),
        ("OpenMW", GameType::OpenMW),
    ];
    for (id, game) in ids {
        assert_eq!(parse_game_type(id).unwrap(), game);
        assert_eq!(parse_game_type(&format!(" \t{}\n", id)).unwrap(), game);
    }
}

#[test]
fn an_unknown_game_id_is_quoted() {
    let e = parse_game_type(" skyrimse").unwrap_err();
    assert_eq!(
        e.message(),
        "unknown game_type: \" skyrimse\" (use e.g. SkyrimSE, Fallout4)"
    );
    let e = parse_game_type("a\"b\\\n").unwrap_err();
    assert_eq!(
        e.message(),
        "unknown game_type: \"a\\\"b\\\\\\n\" (use e.g. SkyrimSE, Fallout4)"
    );
    assert!(parse_game_type("").is_err());
}

#[test]
fn games_have_their_folders() {
    assert_eq!(default_loot_folder(GameType::SkyrimSE), "Skyrim Special Edition");
    assert_eq!(default_loot_folder(GameType::Fallout4VR), "Fallout4 VR");
    assert_eq!(default_loot_folder(GameType::OblivionRemastered), "Oblivion Remastered");
    assert_eq!(game_folder(&some(" Mine "), GameType::Skyrim), "Mine");
    assert_eq!(game_folder(&some(" "), GameType::Skyrim), "Skyrim");
    assert_eq!(shown(&plugins_data_root(GameType::Morrowind, "/g")), "/g|Data Files");
    assert_eq!(shown(&plugins_data_root(GameType::OpenMW, "/g")), "/g|resources/vfs");
    assert_eq!(
        shown(&plugins_data_root(GameType::OblivionRemastered, "/g")),
        "/g|OblivionRemastered/Content/Dev/ObvData/Data"
    );
    assert_eq!(shown(&plugins_data_root(GameType::Starfield, "/g")), "/g|Data");
}

fn data_env() -> DataPathEnv {
    DataPathEnv {
        windows: false,
        loot_data_path: None,
        local_app_data: None,
        home: None,
        xdg_data_home: None,
    }
}

#[test]
fn the_data_root_has_a_default() {
    assert_eq!(shown(&default_loot_data_path(&data_env())), "./.local/share|LOOT");
    let home = DataPathEnv { home: some("/home/u"), ..data_env() };
    assert_eq!(shown(&default_loot_data_path(&home)), "/home/u/.local/share|LOOT");
    let xdg = DataPathEnv { home: some("/home/u"), xdg_data_home: some("/x"), ..data_env() };
    assert_eq!(shown(&default_loot_data_path(&xdg)), "/x|LOOT");
    let win = DataPathEnv { windows: true, local_app_data: some("C:\\L"), ..data_env() };
    assert_eq!(shown(&default_loot_data_path(&win)), "C:\\L|LOOT");
    let bare = DataPathEnv { windows: true, xdg_data_home: some("/x"), ..data_env() };
    assert_eq!(shown(&default_loot_data_path(&bare)), ".|LOOT");
    let set = DataPathEnv { windows: true, loot_data_path: some(" /loot "), ..data_env() };
    assert_eq!(shown(&default_loot_data_path(&set)), "/loot");
    let blank = DataPathEnv { loot_data_path: some("  "), xdg_data_home: some("/x"), ..data_env() };
    assert_eq!(shown(&default_loot_data_path(&blank)), "/x|LOOT");
}

#[test]
fn the_layout_decides_the_game_directory() {
    let probes = layout_probes("/loot", "Skyrim");
    assert_eq!(shown(&probes.games_masterlist), "/loot|games|Skyrim|masterlist.yaml");
    assert_eq!(shown(&probes.legacy_masterlist), "/loot|Skyrim|masterlist.yaml");
    assert_eq!(shown(&probes.games_dir), "/loot|games");
    let dir = |games: bool, legacy: bool, games_dir: bool| {
        let facts = LayoutFacts {
            games_masterlist: games,
            legacy_masterlist: legacy,
            games_dir,
        };
        shown(&resolve_game_loot_dir("/loot", "Skyrim", facts))
    };
    assert_eq!(dir(true, true, true), "/loot|games|Skyrim");
    assert_eq!(dir(false, true, true), "/loot|Skyrim");
    assert_eq!(dir(false, false, true), "/loot|games|Skyrim");
    assert_eq!(dir(false, false, false), "/loot|Skyrim");
}

#[test]
fn the_shared_prelude_wins() {
    let game = JoinedPath::at("/loot").join("Skyrim");
    assert_eq!(shown(&default_prelude_path("/loot", &game, true)), "/loot|prelude|prelude.yaml");
    assert_eq!(shown(&default_prelude_path("/loot", &game, false)), "/loot|Skyrim|prelude.yaml");
    assert_eq!(shown(&list_path(&some(" /p.yaml "), game.join("x"))), "/p.yaml");
    assert_eq!(shown(&list_path(&some(" "), game.join("x"))), "/loot|Skyrim|x");
    assert_eq!(text_given_or(&None, "d"), "d");
}

fn args() -> LootEvaluateArgs {
    LootEvaluateArgs {
        game_type: " ".to_string(),
        game_path: "".to_string(),
        game_local_path: some("  "),
        loot_data_path: None,
        loot_game_folder: some(" keep "),
        masterlist_path: None,
        prelude_path: None,
        userlist_path: some("/u"),
        additional_data_paths: Some(vec!["/a".to_string()]),
        mo2_mods_path: some(" /mods "),
        include_plugin_metadata: true,
        plugin_metadata_content: PluginMetadataContent::Problems,
        plugin_metadata_offset: 3,
        plugin_metadata_limit: Some(4),
        include_master_header_issues: true,
        plugin_problems_include_requirements_load_after: true,
        general_messages_min_severity: GeneralMessageMinSeverity::Warn,
        include_load_order_suggested: false,
        load_order_use_libloadorder: true,
    }
}

#[test]
fn the_environment_fills_in_what_is_left_out() {
    let env = RequestDefaults {
        game_type: some(" Fallout4 "),
        game_path: None,
        game_local_path: some(" /profile "),
        loot_data_path: some(" "),
        mo2_mods_path: some("/other"),
    };
    let req = merge_loot_eval_request(&args(), &env);
    assert_eq!(req.game_type, "Fallout4");
    assert_eq!(req.game_path, "");
    assert_eq!(req.game_local_path, some("/profile"));
    assert_eq!(req.loot_data_path, None);
    assert_eq!(req.loot_game_folder, some(" keep "));
    assert_eq!(req.userlist_path, some("/u"));
    assert_eq!(req.additional_data_paths, Some(vec!["/a".to_string()]));
    assert_eq!(req.mo2_mods_path, some(" /mods "));
    assert!(req.include_plugin_metadata);
    assert_eq!(req.plugin_metadata_content, PluginMetadataContent::Problems);
    assert_eq!(req.plugin_metadata_offset, 3);
    assert_eq!(req.plugin_metadata_limit, Some(4));
    assert!(req.include_master_header_issues);
    assert!(req.plugin_problems_include_requirements_load_after);
    assert_eq!(req.general_messages_min_severity, GeneralMessageMinSeverity::Warn);
    assert!(!req.include_load_order_suggested);
    assert!(req.load_order_use_libloadorder);
}

#[test]
fn arguments_win_over_the_environment() {
    assert_eq!(or_env_opt(some(" a "), &some("b")), some(" a "));
    assert_eq!(or_env_opt(some(" "), &some(" b ")), some("b"));
    assert_eq!(or_env_opt(None, &some(" ")), None);
    assert_eq!(or_env_str(" a ".to_string(), &some("b"), "c"), "a");
    assert_eq!(or_env_str(" ".to_string(), &some(" b"), "c"), "b");
    assert_eq!(or_env_str(String::new(), &None, "c"), "c");
}

#[test]
fn switches_take_one_and_true() {
    for on in ["1", "true"] {
        assert!(prep_cache_enabled(&some(on)));
        assert!(timing_stderr_enabled(&some(on)));
        assert!(timings_json_enabled(&some(on)));
    }
    for off in ["0", "TRUE", " 1", "yes", ""] {
        assert!(!prep_cache_enabled(&some(off)));
    }
    assert!(!prep_cache_enabled(&None));
    assert!(phase_timing_active(&some("1"), &None));
    assert!(phase_timing_active(&None, &some("true")));
    assert!(!phase_timing_active(&some("0"), &None));
    assert!(parallel_metadata_enabled(&None));
    assert!(parallel_metadata_enabled(&some("00")));
    assert!(!parallel_metadata_enabled(&some("0")));
}

#[test]
fn the_lifetime_is_a_positive_number() {
    assert_eq!(prep_cache_ttl(&some(" 60 ")), Some(60));
    assert_eq!(prep_cache_ttl(&some("+7")), Some(7));
    assert_eq!(prep_cache_ttl(&some("18446744073709551615")), Some(u64::MAX));
    assert_eq!(prep_cache_ttl(&some("18446744073709551616")), None);
    assert_eq!(prep_cache_ttl(&some("0")), None);
    assert_eq!(prep_cache_ttl(&some("-1")), None);
    assert_eq!(prep_cache_ttl(&some("+")), None);
    assert_eq!(prep_cache_ttl(&some("1 0")), None);
    assert_eq!(prep_cache_ttl(&some("")), None);
    assert_eq!(prep_cache_ttl(&None), None);
}

#[test]
fn diagnostics_need_a_path() {
    assert_eq!(diagnostics_log_path(&some(" /logs/x ")), some("/logs/x"));
    assert!(diagnostics_enabled(&some("x")));
    assert!(!diagnostics_enabled(&some(" ")));
    assert!(!diagnostics_enabled(&None));
}
