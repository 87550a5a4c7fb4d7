use loot_mcp::cache::PrepCacheTag;
use loot_mcp::diagnostics::{
    evaluate_end, load_order_end, plugin_metadata_end, EndDetail, PrepCacheField, Tool,
};
use loot_mcp::errors::LootError;
use loot_mcp::evaluate::{
    empty_eval_response_error, evaluate, metadata_page_names, next_question, run, PluginFacts,
    PreparedEval, QueryError, RunAnswers, RunQuestion,
};
use loot_mcp::load_order::{
    load_order_plan, needs_libloadorder, read_load_order, run_read_load_order, LibraryOrder,
    LoadOrderPlan,
};
use loot_mcp::messages::{
    filter_general_messages, message_out, message_severity, message_text, severity_str_rank,
    Message, MessageType, MsgOut,
};
use loot_mcp::metadata::{
    base_plugin_out, fill_plugin_metadata_output, problems_from_plugin_metadata,
    problems_out_is_empty, FileMeta, PluginHeader, PluginMetadata,
};
use loot_mcp::names::NameMap;
use loot_mcp::plugin_query::{
    evaluate_plugin_metadata, plugins_to_query, requested_names,
    resolve_plugin_name_in_load_order, run_plugin_metadata,
};
use loot_mcp::profile::{ProfileFiles, ProfileTexts};
use loot_mcp::request::{EvalRequest, GeneralMessageMinSeverity, PluginMetadataContent};
use loot_mcp::timings::timings_out;
use loot_mcp::version::{libloot_build, server_info, LibLootBuild};

fn names(v: &[&str]) -> Vec<String> {
    v.iter().map(|s| s.to_string()).collect()
}

fn build() -> LibLootBuild {
    LibLootBuild { version: "0.1.2".to_string(), revision: "abc123".to_string() }
}

fn request() -> EvalRequest {
    EvalRequest {
        game_type: "SkyrimSE".to_string(),
        game_path: "/game".to_string(),
        game_local_path: None,
        loot_data_path: None,
        loot_game_folder: None,
        masterlist_path: None,
        prelude_path: None,
        userlist_path: None,
        additional_data_paths: None,
        mo2_mods_path: None,
        include_plugin_metadata: false,
        plugin_metadata_content: PluginMetadataContent::Full,
        plugin_metadata_offset: 0,
        plugin_metadata_limit: None,
        include_master_header_issues: false,
        plugin_problems_include_requirements_load_after: false,
        general_messages_min_severity: GeneralMessageMinSeverity::Say,
        include_load_order_suggested: true,
        load_order_use_libloadorder: false,
    }
}

fn prepared() -> PreparedEval {
    PreparedEval {
        current: names(&["Skyrim.esm", "A.esp", "B.esp"]),
        masterlist_path_str: "/loot/masterlist.yaml".to_string(),
        prelude_loaded: true,
        userlist_loaded: false,
    }
}

fn message(kind: MessageType, text: &str) -> Message {
    Message { message_type: kind, content: names(&[text]), condition: None }
}

fn metadata(messages: Vec<Message>) -> PluginMetadata {
    PluginMetadata {
        yaml: "name: x".to_string(),
        messages,
        incompatibilities: Vec::new(),
        requirements: vec![FileMeta { name: "req.esp".to_string(), display_name: None }],
        load_after_files: vec![FileMeta {
            name: "after.esp".to_string(),
            display_name: Some("After".to_string()),
        }],
    }
}

fn header() -> PluginHeader {
    PluginHeader {
        active: true,
        version: Some("1.2".to_string()),
        header_version_bits: Some(1.7f32.to_bits()),
        crc: Some(0xdead),
        is_master: false,
        is_light: true,
        bash_tags: names(&["Delev"]),
    }
}

fn facts(m: Result<Option<PluginMetadata>, String>) -> Option<PluginFacts> {
    Some(PluginFacts { header: header(), metadata: m })
}

fn answers() -> RunAnswers {
    RunAnswers {
        ambiguous: Ok(true),
        sorted: Ok(names(&["Skyrim.esm", "B.esp", "A.esp"])),
        general_messages: Ok(vec![
            message(MessageType::Say, "hello"),
            message(MessageType::Error, "broken"),
        ]),
        masters: vec![None, Some(names(&["B.esp"])), Some(names(&["Skyrim.esm"]))],
        plugins: Vec::new(),
    }
}

fn profile(loadorder: &str) -> ProfileFiles {
    ProfileFiles {
        loadorder: Some(loadorder.as_bytes().to_vec()),
        plugins: None,
        plugins_capital: None,
    }
}

#[test]
fn filter_general_messages_by_severity() {
    let msgs = vec![
        MsgOut {
            severity: "say".to_string(),
            text: "a".to_string(),
            condition: None,
        },
        MsgOut {
            severity: "warn".to_string(),
            text: "b".to_string(),
            condition: None,
        },
        MsgOut {
            severity: "error".to_string(),
            text: "c".to_string(),
            condition: None,
        },
    ];
    let w = filter_general_messages(msgs.clone(), GeneralMessageMinSeverity::Warn);
    assert_eq!(w.len(), 2);
    let e = filter_general_messages(msgs, GeneralMessageMinSeverity::Error);
    assert_eq!(e.len(), 1);
    assert_eq!(e[0].severity, "error");
}

#[test]
fn say_hides_nothing_and_filters_compose_in_any_order() {
    let msgs: Vec<MsgOut> = ["error", "odd", "warn", "say", "error"]
        .iter()
        .map(|s| MsgOut { severity: s.to_string(), text: String::new(), condition: None })
        .collect();
    let all = filter_general_messages(msgs.clone(), GeneralMessageMinSeverity::Say);
    assert_eq!(all.len(), 5);
    let warn = filter_general_messages(msgs.clone(), GeneralMessageMinSeverity::Warn);
    let twice = filter_general_messages(warn, GeneralMessageMinSeverity::Error);
    let once = filter_general_messages(msgs, GeneralMessageMinSeverity::Error);
    let back = filter_general_messages(once.clone(), GeneralMessageMinSeverity::Warn);
    assert_eq!(back.len(), 2);
    assert_eq!(twice.len(), 2);
    assert_eq!(once.len(), 2);
}

#[test]
fn messages_are_joined_by_line() {
    let m = Message {
        message_type: MessageType::Warn,
        content: names(&["one", "two"]),
        condition: Some("file(\"a\")".to_string()),
    };
    assert_eq!(message_text(&m), "one\ntwo");
    let out = message_out(&m);
    assert_eq!(out.severity, "warn");
    assert_eq!(out.text, "one\ntwo");
    assert_eq!(out.condition, Some("file(\"a\")".to_string()));
    assert_eq!(message_severity(MessageType::Say), "say");
    assert_eq!(severity_str_rank("error"), 2);
    assert_eq!(severity_str_rank("warn"), 1);
    assert_eq!(severity_str_rank("say"), 0);
    assert_eq!(severity_str_rank("Error"), 0);
}

#[test]
fn problems_are_warnings_errors_and_files() {
    let meta = metadata(vec![
        message(MessageType::Say, "s"),
        message(MessageType::Warn, "w"),
        message(MessageType::Error, "e"),
    ]);
    let p = problems_from_plugin_metadata(&meta, true);
    let texts: Vec<&str> = p.messages.iter().map(|m| m.text.as_str()).collect();
    assert_eq!(texts, vec!["w", "e"]);
    assert_eq!(p.requirements[0].name, "req.esp");
    assert_eq!(p.load_after[0].display_name, Some("After".to_string()));
    let quiet = metadata(vec![message(MessageType::Say, "s")]);
    assert!(problems_out_is_empty(&problems_from_plugin_metadata(&quiet, false)));
    assert!(!problems_out_is_empty(&problems_from_plugin_metadata(&quiet, true)));
}

#[test]
fn a_plugin_is_shown_as_asked() {
    let full = |m: Result<Option<PluginMetadata>, String>| {
        fill_plugin_metadata_output(
            PluginMetadataContent::Full,
            false,
            base_plugin_out(header()),
            m,
        )
    };
    let shown = full(Ok(Some(metadata(Vec::new())))).unwrap();
    assert_eq!(shown.metadata_yaml, "name: x");
    assert!(shown.metadata_problems.is_none());
    assert_eq!(shown.active, Some(true));
    assert_eq!(shown.version, Some("1.2".to_string()));
    assert_eq!(shown.header_version_bits.map(f32::from_bits), Some(1.7f32));
    assert_eq!(shown.crc, Some(0xdead));
    assert!(shown.is_light && !shown.is_master);
    assert_eq!(shown.bash_tags_in_plugin_header, vec!["Delev"]);
    assert_eq!(full(Ok(None)).unwrap().metadata_yaml, "");
    assert_eq!(full(Err("bad".to_string())).unwrap().metadata_yaml, "# metadata error: bad");

    let problems = |m: Result<Option<PluginMetadata>, String>| {
        fill_plugin_metadata_output(
            PluginMetadataContent::Problems,
            false,
            base_plugin_out(header()),
            m,
        )
    };
    assert!(problems(Ok(None)).is_none());
    assert!(problems(Ok(Some(metadata(vec![message(MessageType::Say, "s")])))).is_none());
    let warned = problems(Ok(Some(metadata(vec![message(MessageType::Warn, "w")])))).unwrap();
    assert_eq!(warned.metadata_yaml, "");
    assert_eq!(warned.metadata_problems.unwrap().messages[0].text, "w");
    let failed = problems(Err("bad".to_string())).unwrap().metadata_problems.unwrap();
    assert_eq!(failed.messages.len(), 1);
    assert_eq!(failed.messages[0].severity, "error");
    assert_eq!(failed.messages[0].text, "metadata error: bad");
}

#[test]
fn an_evaluation_answers_the_request() {
    let prep = prepared();
    let mut req = request();
    req.include_master_header_issues = true;
    req.general_messages_min_severity = GeneralMessageMinSeverity::Warn;
    let out = evaluate(&req, Ok(&prep), answers(), &build());
    assert!(!out.is_error());
    assert_eq!(out.libloot_version, "0.1.2");
    assert_eq!(out.libloot_revision, "abc123");
    assert_eq!(out.masterlist_path, "/loot/masterlist.yaml");
    assert!(out.prelude_loaded && !out.userlist_loaded);
    assert_eq!(out.load_order_current, prep.current);
    assert_eq!(out.load_order_suggested, names(&["Skyrim.esm", "B.esp", "A.esp"]));
    assert_eq!(out.load_order_ambiguous, Some(true));
    assert_eq!(out.general_messages.len(), 1);
    assert_eq!(out.general_messages[0].text, "broken");
    assert_eq!(out.master_header_issues.len(), 1);
    assert_eq!(out.master_header_issues[0].plugin, "A.esp");
    assert_eq!(out.plugins.len(), 0);
    assert!(out.plugin_metadata_page.is_none());
    assert!(out.evaluate_note.is_none());
    assert!(out.timings.is_none());
}

#[test]
fn without_sorting_the_order_is_the_current_one() {
    let prep = prepared();
    let mut req = request();
    req.include_load_order_suggested = false;
    let given = RunAnswers { sorted: Err("not asked".to_string()), ..answers() };
    let out = evaluate(&req, Ok(&prep), given, &build());
    assert_eq!(out.load_order_suggested, out.load_order_current);
    assert_eq!(
        out.evaluate_note,
        Some(
            "load_order_suggested equals load_order_current; sort_plugins was skipped (include_load_order_suggested: false)."
                .to_string()
        )
    );
    assert!(out.master_header_issues.is_empty());
}

#[test]
fn a_page_of_metadata_is_filled() {
    let prep = prepared();
    let mut req = request();
    req.include_plugin_metadata = true;
    req.plugin_metadata_offset = 1;
    req.plugin_metadata_limit = Some(1);
    assert_eq!(metadata_page_names(&req, &prep.current), vec!["A.esp"]);
    let given = RunAnswers {
        plugins: vec![facts(Ok(Some(metadata(Vec::new()))))],
        ..answers()
    };
    let out = evaluate(&req, Ok(&prep), given, &build());
    let page = out.plugin_metadata_page.unwrap();
    assert_eq!((page.total, page.offset, page.returned, page.has_more), (3, 1, 1, true));
    assert_eq!(out.plugins.len(), 1);
    assert_eq!(out.plugins.get("A.esp").unwrap().metadata_yaml, "name: x");

    req.plugin_metadata_content = PluginMetadataContent::Problems;
    req.plugin_metadata_offset = 0;
    req.plugin_metadata_limit = None;
    let given = RunAnswers {
        plugins: vec![
            None,
            facts(Ok(Some(metadata(vec![message(MessageType::Error, "e")])))),
            facts(Ok(None)),
        ],
        ..answers()
    };
    let out = evaluate(&req, Ok(&prep), given, &build());
    let page = out.plugin_metadata_page.unwrap();
    assert_eq!((page.returned, page.has_more), (3, false));
    let listed: Vec<&str> = out.plugins.entries().iter().map(|e| e.name.as_str()).collect();
    assert_eq!(listed, vec!["A.esp"]);
}

#[test]
fn the_first_failure_ends_an_evaluation() {
    let prep = prepared();
    let req = request();
    let failure = |a: RunAnswers| run(&prep, &req, a, &build()).unwrap_err().message();
    let all_wrong = RunAnswers {
        ambiguous: Err("x".to_string()),
        sorted: Err("y".to_string()),
        general_messages: Err(QueryError::LockPoisoned),
        ..answers()
    };
    assert_eq!(failure(all_wrong), "is_load_order_ambiguous: x");
    let unsorted = RunAnswers {
        sorted: Err("y".to_string()),
        general_messages: Err(QueryError::LockPoisoned),
        ..answers()
    };
    assert_eq!(failure(unsorted), "sort_plugins: y");
    let locked = RunAnswers { general_messages: Err(QueryError::LockPoisoned), ..answers() };
    assert_eq!(failure(locked), "LOOT database lock poisoned");
    let failed =
        RunAnswers { general_messages: Err(QueryError::Failed("z".to_string())), ..answers() };
    assert_eq!(failure(failed), "general_messages: z");
}

#[test]
fn only_what_is_wanted_is_asked() {
    let walk = |req: &EvalRequest| {
        let mut asked: Vec<RunQuestion> = vec![RunQuestion::Ambiguity];
        while asked.last() != Some(&RunQuestion::Done) {
            asked.push(next_question(req, *asked.last().unwrap(), false));
        }
        asked
    };
    let mut req = request();
    assert_eq!(
        walk(&req),
        vec![
            RunQuestion::Ambiguity,
            RunQuestion::Sorting,
            RunQuestion::GeneralMessages,
            RunQuestion::Done,
        ]
    );
    req.include_load_order_suggested = false;
    req.include_master_header_issues = true;
    req.include_plugin_metadata = true;
    assert_eq!(
        walk(&req),
        vec![
            RunQuestion::Ambiguity,
            RunQuestion::GeneralMessages,
            RunQuestion::Masters,
            RunQuestion::Plugins,
            RunQuestion::Done,
        ]
    );
    assert_eq!(next_question(&req, RunQuestion::Ambiguity, true), RunQuestion::Done);
    assert_eq!(next_question(&req, RunQuestion::GeneralMessages, true), RunQuestion::Done);
    let prep = prepared();
    let one = RunAnswers { sorted: Err("unasked".to_string()), ..answers() };
    let one = run(&prep, &req, one, &build()).unwrap();
    let two = run(&prep, &req, answers(), &build()).unwrap();
    assert_eq!(format!("{:?}", one), format!("{:?}", two));
}

#[test]
fn a_failed_evaluation_says_why() {
    let out = evaluate(&request(), Err(LootError::EmptyLoadOrder), RunAnswers::none(), &build());
    assert!(out.is_error());
    assert_eq!(
        out.error,
        Some("no load order loaded: libloadorder resolves plugins only as files in game/Data and additional_data_paths (non-recursive). MO2 often leaves game/Data empty \u{2014} set mo2_mods_path to the MO2 mods folder (with game_local_path = profile dir containing modlist.txt), and/or additional_data_paths to flat plugin directories.".to_string())
    );
    assert_eq!(out.libloot_version, "0.1.2");
    assert_eq!(out.libloot_revision, "abc123");
    assert_eq!(out.masterlist_path, "");
    assert!(out.load_order_current.is_empty());
    assert_eq!(out.load_order_ambiguous, None);
    let out = empty_eval_response_error("why".to_string(), &build());
    assert_eq!(out.error, Some("why".to_string()));
}

#[test]
fn a_load_order_comes_from_the_profile() {
    let mut req = request();
    req.game_local_path = Some(" /profile ".to_string());
    let lib = Err(LootError::LoadOrderState("not asked".to_string()));
    let out = read_load_order(&req, &profile("a.esp\nb.esp"), lib);
    assert!(!out.is_error());
    assert_eq!(out.load_order, names(&["a.esp", "b.esp"]));
    assert_eq!(out.plugin_count, 2);
    assert_eq!(out.load_order_ambiguous, None);
    assert_eq!(out.source, Some("loadorder_txt".to_string()));
    assert_eq!(
        out.note,
        Some("load_order_ambiguous is only computed when source is libloadorder".to_string())
    );
}

#[test]
fn a_load_order_comes_from_libloadorder() {
    let mut req = request();
    req.load_order_use_libloadorder = true;
    let lib = LibraryOrder { load_order: names(&["x.esp"]), ambiguous: false };
    let out = read_load_order(&req, &profile("a.esp"), Ok(lib));
    assert_eq!(out.load_order, names(&["x.esp"]));
    assert_eq!(out.source, Some("libloadorder".to_string()));
    assert_eq!(out.load_order_ambiguous, Some(false));
    assert_eq!(out.note, None);
    let failed = read_load_order(
        &req,
        &profile("a.esp"),
        Err(LootError::LoadOrderState("gone".to_string())),
    );
    assert_eq!(failed.error, Some("load_current_load_order_state: gone".to_string()));
    assert_eq!(failed.plugin_count, 0);
    assert_eq!(failed.source, None);
    req.load_order_use_libloadorder = false;
    req.game_local_path = Some("/p".to_string());
    let texts = ProfileTexts {
        loadorder: Some("#".to_string()),
        plugins: None,
        plugins_capital: None,
    };
    let lib = LibraryOrder { load_order: names(&["y.esp"]), ambiguous: true };
    let out = run_read_load_order(&req, &texts, Ok(lib)).unwrap();
    assert_eq!(out.load_order, names(&["y.esp"]));
    assert_eq!(out.load_order_ambiguous, Some(true));
}

#[test]
fn the_quick_way_needs_a_profile() {
    let req = request();
    let e = load_order_plan(&req).unwrap_err();
    assert_eq!(
        e.message(),
        "game_local_path is required for fast load order (read loadorder.txt / plugins.txt). Set load_order_use_libloadorder true to use libloadorder only (slow with many MO2 mod paths)."
    );
    let lib = LibraryOrder { load_order: names(&["y.esp"]), ambiguous: true };
    assert_eq!(read_load_order(&req, &profile("a.esp"), Ok(lib)).error, Some(e.message()));
    let plan = LoadOrderPlan::Profile("/p".to_string());
    assert!(!needs_libloadorder(&plan, &profile("a.esp")));
    assert!(needs_libloadorder(&plan, &profile("# a.esp")));
    assert!(needs_libloadorder(&LoadOrderPlan::Libloadorder, &profile("a.esp")));
}

#[test]
fn named_plugins_are_found_once() {
    let prep = prepared();
    let asked = names(&[" a.ESP ", "", "A.esp", "Gone.esp", "b.esp"]);
    let requested = requested_names(&asked);
    assert_eq!(requested, vec!["a.ESP", "A.esp", "Gone.esp", "b.esp"]);
    assert_eq!(plugins_to_query(&prep.current, &requested), vec!["A.esp", "B.esp"]);
    let known = vec![facts(Ok(Some(metadata(Vec::new())))), None];
    let out = evaluate_plugin_metadata(&request(), &asked, Ok(&prep), known, &build());
    assert!(!out.is_error());
    assert_eq!(out.plugins.len(), 1);
    assert_eq!(out.plugins.get("A.esp").unwrap().metadata_yaml, "name: x");
    assert_eq!(out.not_found, vec!["Gone.esp", "B.esp"]);
    assert_eq!(out.masterlist_path, "/loot/masterlist.yaml");
    assert_eq!(out.libloot_version, "0.1.2");
    assert_eq!(out.libloot_revision, "abc123");
}

#[test]
fn names_are_matched_without_case() {
    let order = names(&["A.esp", "a.esp", "\u{c4}.esp"]);
    assert_eq!(resolve_plugin_name_in_load_order(&order, "a.ESP\t"), Some("A.esp".to_string()));
    assert_eq!(resolve_plugin_name_in_load_order(&order, "\u{e4}.esp"), None);
    assert_eq!(resolve_plugin_name_in_load_order(&order, "  "), None);
}

#[test]
fn a_request_without_names_fails_first() {
    let e = run_plugin_metadata(
        &request(),
        &names(&["", "  "]),
        Err(LootError::CacheLock),
        Vec::new(),
        &build(),
    )
    .unwrap_err();
    assert_eq!(e.message(), "plugin_names must contain at least one non-empty name");
    let out = evaluate_plugin_metadata(
        &request(),
        &names(&["a"]),
        Err(LootError::CacheLock),
        Vec::new(),
        &build(),
    );
    assert_eq!(out.error, Some("prep cache lock poisoned".to_string()));
    assert!(out.not_found.is_empty());
    assert_eq!(out.plugins.len(), 0);
}

fn phases() -> NameMap<u64> {
    let mut phases: NameMap<u64> = NameMap::new();
    phases.insert("sort_plugins".to_string(), 4);
    phases
}

#[test]
fn timings_are_shown_when_wanted() {
    let t = timings_out(true, 9, Some(PrepCacheTag::Miss), phases()).unwrap();
    assert_eq!(t.total_ms, 9);
    assert_eq!(t.prep_cache, Some("miss".to_string()));
    assert_eq!(t.phases_ms.get("sort_plugins"), Some(&4));
    assert!(timings_out(false, 9, None, NameMap::new()).is_none());
    assert_eq!(PrepCacheTag::Disabled.word(), "disabled");
    assert_eq!(PrepCacheTag::Hit.word(), "hit");
}

#[test]
fn timings_always_say_where_the_game_comes_from() {
    let prep = prepared();
    let words = [
        (PrepCacheTag::Hit, "hit"),
        (PrepCacheTag::Miss, "miss"),
        (PrepCacheTag::Disabled, "disabled"),
    ];
    for (tag, word) in words {
        let good = evaluate(&request(), Ok(&prep), answers(), &build());
        let good = good.with_timings(true, 9, tag, phases());
        assert_eq!(good.load_order_current, prep.current);
        let t = good.timings.unwrap();
        assert_eq!((t.total_ms, t.prep_cache), (9, Some(word.to_string())));
        let bad = empty_eval_response_error("e".to_string(), &build());
        let bad = bad.with_timings(true, 9, tag, phases());
        assert_eq!(bad.error, Some("e".to_string()));
        assert_eq!(bad.timings.unwrap().prep_cache, Some(word.to_string()));
        let out = evaluate_plugin_metadata(
            &request(),
            &names(&["a"]),
            Err(LootError::CacheLock),
            Vec::new(),
            &build(),
        );
        let out = out.with_timings(true, 9, tag, phases());
        assert_eq!(out.timings.unwrap().prep_cache, Some(word.to_string()));
    }
    let quiet = empty_eval_response_error("e".to_string(), &build());
    assert!(quiet.with_timings(false, 9, PrepCacheTag::Hit, phases()).timings.is_none());
    let mut req = request();
    req.game_local_path = Some("/p".to_string());
    let out = read_load_order(&req, &profile("a.esp"), Err(LootError::CacheLock));
    let out = out.with_timings(true, 9, phases());
    assert_eq!(out.timings.unwrap().prep_cache, None);
}

#[test]
fn the_order_of_gathering_makes_no_difference() {
    let prep = prepared();
    let mut req = request();
    req.include_plugin_metadata = true;
    let page = metadata_page_names(&req, &prep.current);
    let read = |name: &String| {
        if name == "Skyrim.esm" {
            None
        } else {
            facts(Ok(Some(metadata(vec![message(MessageType::Warn, name)]))))
        }
    };
    let forward: Vec<Option<PluginFacts>> = page.iter().map(read).collect();
    let mut backward: Vec<Option<PluginFacts>> = page.iter().rev().map(read).collect();
    backward.reverse();
    let one = RunAnswers { plugins: forward, ..answers() };
    let two = RunAnswers { plugins: backward, ..answers() };
    let one = run(&prep, &req, one, &build()).unwrap();
    let two = run(&prep, &req, two, &build()).unwrap();
    assert_eq!(format!("{:?}", one), format!("{:?}", two));
}

#[test]
fn pages_of_plugins_add_up() {
    let prep = prepared();
    let shown = |offset: u32, limit: Option<u32>| {
        let mut req = request();
        req.include_plugin_metadata = true;
        req.plugin_metadata_offset = offset;
        req.plugin_metadata_limit = limit;
        let plugins = metadata_page_names(&req, &prep.current)
            .iter()
            .map(|_| facts(Ok(None)))
            .collect();
        let out = run(&prep, &req, RunAnswers { plugins, ..answers() }, &build()).unwrap();
        let names: Vec<String> =
            out.plugins.into_entries().into_iter().map(|e| e.name).collect();
        names
    };
    let mut parts = [shown(0, Some(2)), shown(2, None)].concat();
    parts.sort();
    assert_eq!(parts, shown(0, None));
}

#[test]
fn the_log_says_how_a_call_ended() {
    let prep = prepared();
    let good = evaluate(&request(), Ok(&prep), answers(), &build());
    let end = evaluate_end(&good, true, PrepCacheTag::Hit);
    assert!(end.ok);
    assert_eq!(end.tool.name(), "loot_evaluate");
    assert!(matches!(end.detail, EndDetail::PluginCount(3)));
    assert!(matches!(end.prep_cache, PrepCacheField::Written(t) if t == "hit"));
    let bad = empty_eval_response_error("why".to_string(), &build());
    let end = evaluate_end(&bad, false, PrepCacheTag::Miss);
    assert!(!end.ok);
    assert!(matches!(end.detail, EndDetail::Error(e) if e == "why"));
    assert!(matches!(end.prep_cache, PrepCacheField::Written(t) if t == "miss"));
    let end = evaluate_end(&bad, true, PrepCacheTag::Miss);
    assert!(!end.ok);
    assert!(matches!(end.detail, EndDetail::PluginCount(0)));

    let mut req = request();
    req.game_local_path = Some("/p".to_string());
    let lib = Err(LootError::CacheLock);
    let end = load_order_end(&read_load_order(&req, &profile("a.esp"), lib));
    assert!(end.ok);
    assert_eq!(end.tool.name(), "loot_load_order");
    assert!(matches!(end.prep_cache, PrepCacheField::Left));
    assert!(matches!(
        end.detail,
        EndDetail::LoadOrder { plugin_count: 1, source: Some(s) } if s == "loadorder_txt"
    ));
    let lib = Err(LootError::Ambiguity("x".to_string()));
    let end = load_order_end(&read_load_order(&req, &profile(""), lib));
    assert!(!end.ok);
    assert!(matches!(end.detail, EndDetail::Error(e) if e == "is_load_order_ambiguous: x"));

    let known = vec![facts(Ok(None))];
    let out = evaluate_plugin_metadata(&request(), &names(&["A.esp"]), Ok(&prep), known, &build());
    let end = plugin_metadata_end(&out, PrepCacheTag::Disabled);
    assert!(end.ok);
    assert_eq!(end.tool, Tool::PluginMetadata);
    assert_eq!(end.tool.name(), "loot_plugin_metadata");
    assert!(matches!(end.detail, EndDetail::PluginsReturned(1)));
}

#[test]
fn the_server_names_its_parts() {
    let info = server_info("1.0.0".to_string(), build(), Some("/bin/loot-mcp".to_string()));
    assert_eq!(info.version, "1.0.0");
    assert_eq!(info.libloot_version, "0.1.2");
    assert_eq!(info.libloot_revision, "abc123");
    assert_eq!(info.executable, Some("/bin/loot-mcp".to_string()));
    assert_eq!(info.note, "LOOT metadata from masterlist/userlist + libloot; not Nexus.");
}

#[test]
fn libloot_says_what_it_is() {
    let linked = libloot_build();
    assert_eq!(linked.version, "0.29.7");
    assert_eq!(linked.version, libloot::libloot_version());
    assert_eq!(linked.revision, libloot::libloot_revision());
    let prep = prepared();
    let out = evaluate(&request(), Ok(&prep), answers(), &linked);
    assert_eq!(out.libloot_version, "0.29.7");
    assert_eq!(out.libloot_revision, libloot::libloot_revision());
}
