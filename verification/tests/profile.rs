use loot_mcp::mods::{
    collect_additional_data_paths, enabled_from_modlist, mo2_additional_plugin_roots, mo2_scan,
    mod_dirs, ModDirFacts, ModlistRead,
};
use loot_mcp::paths::JoinedPath;
use loot_mcp::profile::{
    parse_loadorder_txt, parse_mo2_enabled_mods, parse_plugins_txt_order,
    read_load_order_from_profile_dir, read_profile_text_lossy, ProfileFiles,
};
use loot_mcp::request::{EvalRequest, GeneralMessageMinSeverity, PluginMetadataContent};

fn bytes(s: &str) -> Option<Vec<u8>> {
    Some(s.as_bytes().to_vec())
}

fn shown(p: &JoinedPath) -> String {
    let mut all: Vec<String> = vec![p.base.clone()];
    all.extend(p.parts.iter().cloned());
    all.join("/")
}

fn request(mods: Option<&str>, profile: Option<&str>) -> EvalRequest {
    EvalRequest {
        game_type: "SkyrimSE".to_string(),
        game_path: "/game".to_string(),
        game_local_path: profile.map(|s| s.to_string()),
        loot_data_path: None,
        loot_game_folder: None,
        masterlist_path: None,
        prelude_path: None,
        userlist_path: None,
        additional_data_paths: None,
        mo2_mods_path: mods.map(|s| s.to_string()),
        include_plugin_metadata: false,
        plugin_metadata_content: PluginMetadataContent::Full,
        plugin_metadata_offset: 0,
        plugin_metadata_limit: None,
        include_master_header_issues: false,
        plugin_problems_include_requirements_load_after: false,
        general_messages_min_severity: GeneralMessageMinSeverity::Say,
        include_load_order_suggested: true,
        load_order_use_libloadorder: false,
    }
}

#[test]
fn parse_loadorder_txt_skips_comments_and_blank() {
    let s = "# c\n\nSkyrim.esm\n\n# x\nFoo.esp\n";
    assert_eq!(
        parse_loadorder_txt(s),
        vec!["Skyrim.esm".to_string(), "Foo.esp".to_string()]
    );
}

#[test]
fn parse_plugins_txt_order_asterisk_and_inactive() {
    let s = "# h\n*A.esp\nB.esl\n\n* C.esp \n";
    assert_eq!(
        parse_plugins_txt_order(s),
        vec!["A.esp".to_string(), "B.esl".to_string(), "C.esp".to_string()]
    );
}

#[test]
fn read_load_order_from_profile_prefers_loadorder_txt() {
    let files = ProfileFiles {
        loadorder: bytes("a.esp\nb.esp\n"),
        plugins: bytes("*x.esp\n"),
        plugins_capital: None,
    };
    let (v, src) = read_load_order_from_profile_dir(&files).unwrap();
    assert_eq!(src.name(), "loadorder_txt");
    assert_eq!(v, vec!["a.esp", "b.esp"]);
}

#[test]
fn read_load_order_from_profile_plugins_only() {
    let files = ProfileFiles {
        loadorder: None,
        plugins: None,
        plugins_capital: bytes("*m1.esp\nm2.esl\n"),
    };
    let (v, src) = read_load_order_from_profile_dir(&files).unwrap();
    assert_eq!(src.name(), "plugins_txt");
    assert_eq!(v, vec!["m1.esp", "m2.esl"]);
}

#[test]
fn parse_mo2_modlist_order_and_reverse_priority() {
    let text = "# hi\n+LowPriority\n-Off\n+HighPriority\n";
    let enabled =
        enabled_from_modlist("/profile", ModlistRead::Text(text.to_string())).unwrap();
    let dirs = mod_dirs("mods", &enabled);
    assert_eq!(dirs.len(), 2);
    assert_eq!(shown(&dirs[0].data), "mods/LowPriority/Data");
    let facts = vec![ModDirFacts { data: true, own: true }, ModDirFacts { data: true, own: true }];
    let roots = mo2_additional_plugin_roots("mods", &enabled, &facts);
    assert_eq!(roots.len(), 2);
    assert!(shown(&roots[0]).ends_with("HighPriority/Data"));
    assert!(shown(&roots[1]).ends_with("LowPriority/Data"));
}

#[test]
fn an_empty_loadorder_gives_way_to_plugins() {
    let files = ProfileFiles {
        loadorder: bytes("# nothing\n\n"),
        plugins: bytes("  \n*\n# none\n"),
        plugins_capital: bytes("*last.esp\r\n"),
    };
    let (v, src) = read_load_order_from_profile_dir(&files).unwrap();
    assert_eq!(src.name(), "plugins_txt");
    assert_eq!(v, vec!["last.esp"]);
    let none = ProfileFiles { loadorder: bytes("\n"), plugins: None, plugins_capital: None };
    assert!(read_load_order_from_profile_dir(&none).is_none());
}

#[test]
fn bytes_that_are_not_utf8_are_replaced() {
    let raw: Vec<u8> = vec![b'A', 0xff, b'.', b'e', b's', b'p', b'\n'];
    assert_eq!(read_profile_text_lossy(&raw), "A\u{fffd}.esp\n");
    let utf8 = "M\u{fc}ller.esp".as_bytes().to_vec();
    assert_eq!(read_profile_text_lossy(&utf8), "M\u{fc}ller.esp");
    let files = ProfileFiles { loadorder: Some(raw), plugins: None, plugins_capital: None };
    let (v, _) = read_load_order_from_profile_dir(&files).unwrap();
    assert_eq!(v, vec!["A\u{fffd}.esp"]);
}

#[test]
fn a_written_load_order_reads_back() {
    let names = vec!["Skyrim.esm", "My Mod.esp", "\u{c4}rger.esl"];
    assert_eq!(parse_loadorder_txt(&names.join("\n")), names);
    assert_eq!(parse_loadorder_txt(&names.join("\r\n")), names);
    assert_eq!(parse_plugins_txt_order(&names.join("\n*")), names);
}

#[test]
fn comments_make_no_difference() {
    let without = "a.esp\n+b\n*c.esp";
    let with = "a.esp\n  # +x\n+b\n \t \n*c.esp\n#";
    assert_eq!(parse_loadorder_txt(with), parse_loadorder_txt(without));
    assert_eq!(parse_plugins_txt_order(with), parse_plugins_txt_order(without));
    assert_eq!(parse_mo2_enabled_mods(with), parse_mo2_enabled_mods(without));
    assert_eq!(parse_loadorder_txt(without), vec!["a.esp", "+b", "*c.esp"]);
    assert_eq!(parse_mo2_enabled_mods(without), vec!["b"]);
}

#[test]
fn texts_are_read_in_parts() {
    let a = "# x\na.esp\n+one";
    let b = "*b.esp\n\n+two";
    let all = format!("{}\n{}", a, b);
    assert_eq!(
        parse_loadorder_txt(&all),
        [parse_loadorder_txt(a), parse_loadorder_txt(b)].concat()
    );
    assert_eq!(
        parse_plugins_txt_order(&all),
        [parse_plugins_txt_order(a), parse_plugins_txt_order(b)].concat()
    );
    assert_eq!(parse_mo2_enabled_mods(&all), vec!["one", "two"]);
}

#[test]
fn whitespace_outside_ascii_is_trimmed() {
    assert_eq!(parse_loadorder_txt("\u{a0}\u{2003}a.esp\u{3000}\u{85}"), vec!["a.esp"]);
    assert_eq!(parse_loadorder_txt("\u{200b}a.esp"), vec!["\u{200b}a.esp"]);
}

#[test]
fn an_enabled_mod_needs_a_name() {
    assert_eq!(parse_mo2_enabled_mods("+\n+  \n-no\n*no\n + yes \n"), vec!["yes"]);
}

#[test]
fn mods_without_directories_are_left_out() {
    let names: Vec<String> = ["a", "b", "c", "d"].iter().map(|s| s.to_string()).collect();
    let facts = vec![
        ModDirFacts { data: false, own: true },
        ModDirFacts { data: false, own: false },
        ModDirFacts { data: true, own: true },
    ];
    let roots = mo2_additional_plugin_roots("/mods", &names, &facts);
    let texts: Vec<String> = roots.iter().map(shown).collect();
    assert_eq!(texts, vec!["/mods/c/Data", "/mods/a"]);
}

#[test]
fn listed_directories_come_before_those_of_mods() {
    let listed: Option<Vec<String>> =
        Some(vec![" /one ".to_string(), "  ".to_string(), "/two".to_string()]);
    let all = collect_additional_data_paths(&listed, vec![JoinedPath::at("/mods/m")]);
    let texts: Vec<String> = all.iter().map(shown).collect();
    assert_eq!(texts, vec!["/one", "/two", "/mods/m"]);
    assert_eq!(collect_additional_data_paths(&None, Vec::new()).len(), 0);
}

#[test]
fn mods_need_a_profile() {
    let e = mo2_scan(&request(Some("/mods"), Some("  "))).unwrap_err();
    assert_eq!(
        e.message(),
        "mo2_mods_path requires game_local_path (MO2 profile directory containing modlist.txt)"
    );
    assert!(mo2_scan(&request(Some(" "), None)).unwrap().is_none());
    let scan = mo2_scan(&request(Some(" /mods "), Some("/p "))).unwrap().unwrap();
    assert_eq!(scan.mods_root, "/mods");
    assert_eq!(scan.profile_dir, "/p");
}

#[test]
fn a_modlist_that_cannot_be_read_is_reported() {
    let e = enabled_from_modlist("/p", ModlistRead::NotAFile).unwrap_err();
    assert_eq!(
        e.message(),
        "modlist.txt not found under profile /p (required when mo2_mods_path is set)"
    );
    let read = ModlistRead::Unreadable {
        path: "/p/modlist.txt".to_string(),
        cause: "stream did not contain valid UTF-8".to_string(),
    };
    let e = enabled_from_modlist("/p", read).unwrap_err();
    assert_eq!(e.message(), "read /p/modlist.txt: stream did not contain valid UTF-8");
}
