use cursor_server::json;
use cursor_server::search::federation::{
    merge, merge_responses, rank_results, search_query, EngineResponse, RankedHit, SearchHit,
};
use cursor_server::search::outcome::{TgrepFailure, TgrepOutcome};
use cursor_server::search::paths::{
    find_repo_root, is_home_or_config_boundary, is_indexable_repo_root,
    is_tgrep_available, is_user_home_or_system_root, resolve_tgrep_binary, DirectoryFacts,
    ProbedPath, RepoMarkers, SamePlace,
};
use cursor_server::search::registry::{
    probe_readiness, read_serve_json, removes_record, EnsureStep, ServerReadiness, TgrepRegistry,
};
use cursor_server::search::tgrep::{
    index_use, prepare_search, tgrep_answer, tgrep_arguments, tgrep_outcome, tgrep_workspace_path,
    TgrepRun,
};

fn hit(url: &str, engine: &str, chunk: &str) -> SearchHit {
    SearchHit::new("title", url, chunk, vec![engine.to_string()])
}

fn rrf(rank: usize) -> f64 {
    1.0 / (60.0 + rank as f64 + 1.0)
}

fn score(hit: &SearchHit) -> f64 {
    hit.ranks.iter().fold(0.0, |total, rank| total + rrf(*rank))
}

fn entry<'a>(merged: &'a [SearchHit], url: &str) -> &'a SearchHit {
    merged.iter().find(|hit| hit.url == url).unwrap()
}

#[test]
fn an_engine_that_lists_one_url_twice_contributes_a_single_rrf_term() {
    let mut merged = Vec::new();
    merge(
        &mut merged,
        "duckduckgo",
        vec![
            hit("https://example.com/p", "duckduckgo", "short"),
            hit("https://example.com/p", "duckduckgo", "longer snippet"),
        ],
    );

    let entry = entry(&merged, "https://example.com/p");
    assert_eq!(entry.engines, vec!["duckduckgo"]);
    assert_eq!(score(entry), rrf(0));
    assert_eq!(entry.chunk, "longer snippet");
}

#[test]
fn two_engines_that_agree_on_a_url_still_sum_both_ranks() {
    let mut merged = Vec::new();
    merge(&mut merged, "google", vec![hit("https://example.com/p", "google", "a")]);
    merge(
        &mut merged,
        "bing",
        vec![
            hit("https://example.com/other", "bing", "b"),
            hit("https://example.com/p", "bing", "c"),
        ],
    );

    let entry = entry(&merged, "https://example.com/p");
    assert_eq!(entry.engines, vec!["google", "bing"]);
    assert_eq!(score(entry), rrf(0) + rrf(1));
}

#[test]
fn agreement_between_engines_outranks_one_engine_repeating_itself() {
    let mut merged = Vec::new();
    merge(
        &mut merged,
        "duckduckgo",
        vec![
            hit("https://example.com/repeated", "duckduckgo", "a"),
            hit("https://example.com/repeated", "duckduckgo", "b"),
            hit("https://example.com/agreed", "duckduckgo", "c"),
        ],
    );
    merge(&mut merged, "brave", vec![hit("https://example.com/agreed", "brave", "d")]);

    assert!(
        score(entry(&merged, "https://example.com/agreed"))
            > score(entry(&merged, "https://example.com/repeated"))
    );
}

#[test]
fn ranked_results_come_by_score_and_then_by_address() {
    let ranked = |url: &str, score: f64| RankedHit { hit: hit(url, "a", ""), score: score.to_bits() };
    let results = rank_results(vec![
        ranked("https://b", 0.25),
        ranked("https://c", 0.5),
        ranked("https://a", 0.25),
    ]);
    let urls: Vec<&str> = results.iter().map(|ranked| ranked.hit.url.as_str()).collect();
    assert_eq!(urls, vec!["https://c", "https://a", "https://b"]);
}

#[test]
fn a_search_without_a_query_or_without_answers_fails() {
    assert!(search_query("   ").is_err());
    assert_eq!(search_query(" rust ").unwrap(), "rust");
    let nobody = vec![EngineResponse { engine: "google".into(), results: None }];
    assert!(merge_responses(nobody).is_err());
    let one = vec![
        EngineResponse { engine: "google".into(), results: None },
        EngineResponse { engine: "bing".into(), results: Some(vec![hit("https://a", "bing", "x")]) },
    ];
    assert_eq!(merge_responses(one).unwrap().len(), 1);
    let pages = |engine: &str| {
        Some(vec![hit("https://a", engine, "x"), hit("https://b", engine, "y"), hit("https://a", engine, "z")])
    };
    let two = vec![
        EngineResponse { engine: "google".into(), results: pages("google") },
        EngineResponse { engine: "bing".into(), results: pages("bing") },
    ];
    let merged = merge_responses(two).unwrap();
    assert_eq!(merged.len(), 2);
    assert_eq!(merged[0].url, "https://a");
    assert_eq!(merged[1].url, "https://b");
}

#[test]
fn no_match_is_successful_and_never_falls_back() {
    let outcome = TgrepOutcome::NoMatch;
    assert!(!outcome.should_auto_fallback());
}

#[test]
fn infrastructure_failures_are_eligible_for_auto_fallback() {
    let outcome = TgrepOutcome::Failure(TgrepFailure::Infrastructure {
        reason: "process exited unexpectedly".into(),
    });
    assert!(outcome.should_auto_fallback());
}

#[test]
fn unsupported_requests_are_eligible_for_auto_fallback() {
    let outcome = TgrepOutcome::Failure(TgrepFailure::UnsupportedRequest {
        reason: "offset is unsupported".into(),
    });
    assert!(outcome.should_auto_fallback());
}

#[test]
fn invalid_requests_never_fall_back() {
    let outcome = TgrepOutcome::Failure(TgrepFailure::InvalidRequest {
        reason: "type must not be empty".into(),
    });
    assert!(!outcome.should_auto_fallback());
}

#[test]
fn tgrep_allows_empty_type() {
    let args = json::parse(r#"{"pattern": "test", "type": ""}"#).unwrap();
    assert!(matches!(prepare_search(&args, false), Err(TgrepFailure::Unavailable)));
}

#[test]
fn tgrep_rejects_invalid_type_syntax() {
    let args = json::parse(r#"{"pattern": "test", "type": "invalid type; name!"}"#).unwrap();
    assert!(matches!(prepare_search(&args, false), Err(TgrepFailure::InvalidRequest { .. })));
}

#[test]
fn tgrep_rejects_offset_before_binary_lookup() {
    let args = json::parse(r#"{"pattern": "test", "offset": 1}"#).unwrap();
    assert!(matches!(prepare_search(&args, false), Err(TgrepFailure::UnsupportedRequest { .. })));
}

#[test]
fn tgrep_reports_unavailable_as_typed_failure() {
    let args = json::parse(r#"{"pattern": "test"}"#).unwrap();
    assert!(matches!(prepare_search(&args, false), Err(TgrepFailure::Unavailable)));
    assert!(prepare_search(&args, true).is_ok());
}

#[test]
fn tgrep_rejects_empty_pattern() {
    let args = json::parse(r#"{"pattern": ""}"#).unwrap();
    assert!(matches!(prepare_search(&args, false), Err(TgrepFailure::InvalidRequest { .. })));
}

#[test]
fn type_names_may_hold_letters_of_any_script() {
    let args = json::parse(r#"{"pattern": "test", "type": "größe"}"#).unwrap();
    assert!(prepare_search(&args, true).is_ok());
}

#[test]
fn tgrep_is_asked_for_what_the_call_asks_for() {
    let args = json::parse(
        r#"{"pattern": "needle", "path": "src", "-i": true, "-C": 2, "glob": "*.rs"}"#,
    )
    .unwrap();
    let arguments = tgrep_arguments(&args, &index_use(true, true, None), "src");
    assert!(arguments.iter().any(|argument| argument == "needle"));
    assert!(arguments.iter().any(|argument| argument == "-i"));
    assert!(arguments.iter().any(|argument| argument == "*.rs"));
    assert!(arguments.iter().any(|argument| argument == "--no-index"));
    assert_eq!(arguments.last().unwrap(), "src");
}

#[test]
fn no_match_is_answered_with_the_pattern_and_the_path() {
    let args = json::parse(r#"{"pattern": "__NO_MATCH__", "path": "src/search/tgrep.rs"}"#).unwrap();
    let outcome = tgrep_outcome(Ok(TgrepRun::read(Some(1), b"", b"")));
    assert!(matches!(outcome, TgrepOutcome::NoMatch));
    assert_eq!(
        tgrep_answer(&args, outcome).unwrap(),
        "No matches found for pattern `__NO_MATCH__` in src/search/tgrep.rs"
    );
}

#[test]
fn output_that_is_no_text_is_read_leniently() {
    let outcome = tgrep_outcome(Ok(TgrepRun::read(Some(0), &[b'a', 0xff, b'b', b'\n'], b"")));
    let TgrepOutcome::Match(output) = outcome else {
        panic!("expected a match");
    };
    assert!(output.contains("a\u{fffd}b"));
}

#[test]
fn tgrep_handles_missing_binary_gracefully() {
    let args = json::parse(r#"{"pattern": "test", "path": "src/search/tgrep.rs"}"#).unwrap();
    let failure = prepare_search(&args, false).unwrap_err();
    let answer = tgrep_answer(&args, TgrepOutcome::Failure(failure));
    assert!(answer.unwrap_err().contains("not found"));
}

#[test]
fn tgrep_workspace_path_resolves_missing_or_relative_paths() {
    for arguments in [r#"{"pattern": "test"}"#, r#"{"path": "."}"#] {
        let arguments = json::parse(arguments).unwrap();
        let written = cursor_server::search::tgrep::search_path(&arguments);
        let path = tgrep_workspace_path(&written, false, Some("/work/."));
        assert_eq!(path, "/work/.");
    }
}

#[test]
fn tgrep_workspace_path_accepts_an_absolute_path() {
    assert_eq!(tgrep_workspace_path("/tmp/dir", true, None), "/tmp/dir");
}

fn directory(path: &str) -> DirectoryFacts {
    DirectoryFacts {
        path: path.into(),
        has_parent: true,
        homes: Vec::new(),
        settings: Vec::new(),
        markers: RepoMarkers {
            git: false,
            cargo_toml: false,
            package_json: false,
            go_mod: false,
            pyproject_toml: false,
        },
    }
}

const SAME: SamePlace = SamePlace { as_written: true, once_resolved: true };

#[test]
fn user_home_is_never_an_indexable_repo_root() {
    let mut home = directory("/home/user");
    home.homes = vec![SAME];
    home.markers.git = true;
    assert!(is_user_home_or_system_root(&home));
    assert!(!is_indexable_repo_root(&home));
    assert_eq!(find_repo_root(&vec![home], "/home/user"), "/home/user");
}

#[test]
fn blacklisted_locations_are_never_indexable() {
    for config_name in ["AppData", ".cursor", ".agents", ".vscode", ".cache", ".npm", ".cargo"] {
        let mut path = directory(&format!("/home/user/{config_name}"));
        path.settings = vec![SAME];
        path.markers.git = true;
        assert!(is_home_or_config_boundary(&path));
        assert!(!is_indexable_repo_root(&path));
    }
}

#[test]
fn root_drive_is_never_an_indexable_repo_root() {
    let mut drive = directory("/");
    drive.has_parent = false;
    drive.markers.git = true;
    assert!(is_user_home_or_system_root(&drive));
    assert!(!is_indexable_repo_root(&drive));
}

#[test]
fn a_directory_with_a_manifest_is_the_root_of_what_it_holds() {
    let inner = directory("/work/project/src");
    let mut root = directory("/work/project");
    root.markers.cargo_toml = true;
    assert_eq!(find_repo_root(&vec![inner, root], "/work/project/src"), "/work/project");
}

#[test]
fn registry_initializes_empty() {
    let registry = TgrepRegistry::new();
    assert_eq!(registry.active_count(), 0);
}

#[test]
fn registry_reaps_idle_handles() {
    let mut registry = TgrepRegistry::new();
    registry.on_started("target/test_repo_idle".into(), None, 0);
    assert_eq!(registry.active_count(), 1);
    let reaped = registry.reap_idle(1_500_000, 1_200_000);
    assert_eq!(reaped.len(), 1);
    assert_eq!(registry.active_count(), 0);
}

#[test]
fn only_servers_idle_for_longer_are_reaped() {
    let mut registry = TgrepRegistry::new();
    registry.on_started("at_limit".into(), None, 1_000);
    registry.on_started("beyond".into(), None, 999);
    let reaped = registry.reap_idle(2_000, 1_000);
    assert_eq!(reaped.len(), 1);
    assert_eq!(reaped[0].repo_root, "beyond");
    assert_eq!(registry.active_count(), 1);
}

fn probed(path: &str, is_absolute: bool, is_file: bool) -> ProbedPath {
    ProbedPath {
        path: path.into(),
        is_absolute,
        in_current: Some(format!("/current/{path}")),
        is_file,
    }
}

#[test]
fn the_program_is_resolved_to_an_absolute_path() {
    let places = vec![probed("/usr/bin/tgrep", true, false), probed("/opt/tgrep", true, true)];
    let resolve = |configured| resolve_tgrep_binary(&configured, &places);
    assert_eq!(resolve(None).unwrap(), "/opt/tgrep");
    assert_eq!(resolve(Some(probed("  ", false, false))).unwrap(), "/opt/tgrep");
    assert_eq!(resolve(Some(probed("tools/tgrep", false, true))).unwrap(), "/current/tools/tgrep");
    assert_eq!(resolve(Some(probed(" /bin/tgrep ", true, true))).unwrap(), "/bin/tgrep");
    assert!(resolve(Some(probed("/missing", true, false))).is_none());
    let relative = vec![probed("bin/tgrep", false, true)];
    assert_eq!(resolve_tgrep_binary(&None, &relative).unwrap(), "/current/bin/tgrep");
    assert!(is_tgrep_available(&None, &places));
    assert!(!is_tgrep_available(&Some(probed("/missing", true, false)), &places));
}

#[test]
fn registry_shutdown_clears_all_handles() {
    let mut registry = TgrepRegistry::new();
    registry.on_started("target/test_repo_1".into(), None, 0);
    registry.on_started("target/test_repo_2".into(), None, 0);
    assert_eq!(registry.active_count(), 2);
    registry.shutdown();
    assert_eq!(registry.active_count(), 0);
}

#[test]
fn shutdown_prevents_future_server_starts() {
    let mut registry = TgrepRegistry::new();
    registry.shutdown();
    let step = registry.ensure_server("/work/project", 0, false);
    assert!(matches!(step, EnsureStep::Refused));
    assert_eq!(registry.active_count(), 0);
}

#[test]
fn terminate_without_matching_pid_preserves_serve_json() {
    let record = read_serve_json(r#"{"pid":1234,"port":5678}"#);
    assert_eq!(record, Some((1234, 5678)));
    assert!(!removes_record(None, record));
    assert!(!removes_record(Some(99), record));
}

#[test]
fn terminate_with_matching_pid_removes_serve_json() {
    let record = read_serve_json(r#"{"pid":1234,"port":5678}"#);
    assert!(removes_record(Some(1234), record));
    assert_eq!(read_serve_json("not json"), None);
}

#[test]
fn probe_readiness_validates_jsonrpc_strictly() {
    assert_eq!(probe_readiness(None), ServerReadiness::Unhealthy);
    assert_eq!(probe_readiness(Some("nonsense")), ServerReadiness::Unhealthy);
    assert_eq!(probe_readiness(Some("{}")), ServerReadiness::Unhealthy);
}

#[test]
fn a_server_tells_whether_it_still_builds_its_index() {
    let ready = r#"{"jsonrpc":"2.0","id":1,"result":{"indexing":false}}"#;
    let indexing = r#"{"jsonrpc":"2.0","id":1,"result":{"indexing":true}}"#;
    let other = r#"{"jsonrpc":"2.0","id":2,"result":{}}"#;
    let refused = r#"{"jsonrpc":"2.0","id":1,"error":{"code":1},"result":{}}"#;
    assert_eq!(probe_readiness(Some(ready)), ServerReadiness::Ready);
    assert_eq!(probe_readiness(Some(indexing)), ServerReadiness::Indexing);
    assert_eq!(probe_readiness(Some(other)), ServerReadiness::Unhealthy);
    assert_eq!(probe_readiness(Some(refused)), ServerReadiness::Unhealthy);
}

#[test]
fn a_repository_gets_one_server() {
    let mut registry = TgrepRegistry::new();
    let step = registry.ensure_server("/work/project", 0, false);
    assert!(matches!(step, EnsureStep::Start { ended: None }));
    registry.on_started("/work/project".into(), Some(42), 0);
    let step = registry.ensure_server("/work/project", 1, false);
    assert!(matches!(step, EnsureStep::Running { pid: Some(42), .. }));
    assert_eq!(registry.active_count(), 1);
    let step = registry.ensure_server("/work/project", 2, true);
    assert!(matches!(step, EnsureStep::Start { ended: Some(_) }));
    assert_eq!(registry.active_count(), 0);
}
