use cursor_server::collections::NameMap;
use cursor_server::cursor::tools::git_archaeology::{
    bounded, commit_arguments, git_failure, history_answer, lineage_arguments, lineage_query,
    parse_renames, parse_timeline, pickaxe_arguments, pickaxe_query, HistoryOperation,
    HistoryRequest, MAX_EVIDENCE_BYTES,
};
use cursor_server::cursor::tools::inspect_changes::{
    branch_name, clean_answer, diff_arguments, get_diff_numstat, inspect_target, inspected_path,
    is_noise_file, not_a_repository, parse_porcelain_z, repository_root, show_hunks, BranchStep,
    ChangeSummary, DiffPhase, DiffQuery, DiffStep, FileStep, GitText, SingleFile,
};
use cursor_server::cursor::tools::truncation::{
    trim_feeds, truncate_edges, truncate_text, truncation_notice, utf8_prefix, utf8_suffix,
};
use cursor_server::json::Json;

fn git(success: bool, stdout: &str, stderr: &str) -> GitText {
    GitText::read(success, stdout.as_bytes(), stderr.as_bytes())
}

#[test]
fn a_directory_outside_a_repository_is_said_to_be_one() {
    assert_eq!(repository_root(&None), None);
    assert_eq!(repository_root(&Some(git(false, "", "fatal"))), None);
    assert_eq!(repository_root(&Some(git(true, "/work\n", ""))).unwrap(), "/work");
    let answer = not_a_repository("/tmp/x");
    assert!(matches!(answer, Json::Object(_)));
    assert!(inspected_path("  ").is_err());
    assert_eq!(inspected_path(" /work ").unwrap(), "/work");
    let target = inspect_target("/work/a.rs", false, true, true, Some("/work"));
    assert_eq!(target.directory, "/work");
    assert_eq!(target.file.as_deref(), Some("/work/a.rs"));
}

#[test]
fn branches_are_named() {
    assert!(matches!(
        branch_name(&Some(git(true, "main\n", ""))),
        BranchStep::Known(Some(name)) if name == "main"
    ));
    assert!(matches!(branch_name(&Some(git(true, "\n", ""))), BranchStep::AskCommit));
}

#[test]
fn lock_files_are_noise() {
    assert!(is_noise_file("Cargo.lock"));
    assert!(is_noise_file("web/package-lock.json"));
    assert!(!is_noise_file("src/lock.rs"));
}

#[test]
fn a_diff_is_looked_for_against_the_head_first() {
    let DiffStep::Done(found) = DiffPhase::Head.on_output(Ok(git(true, "diff --git a b", ""))) else {
        panic!("expected the diff");
    };
    assert_eq!(found.unwrap(), "diff --git a b");
    let failed = |stderr: &str| DiffPhase::Head.on_output(Ok(git(false, "", stderr)));
    let DiffStep::Ask(phase) = failed("fatal: bad revision 'HEAD'") else {
        panic!("expected another question");
    };
    assert_eq!(phase.query(), DiffQuery::Cached);
    assert!(matches!(failed("fatal: x"), DiffStep::Done(Err(m)) if m == "git diff error: fatal: x"));
    let arguments = diff_arguments("/work", DiffQuery::Head, Some("a.rs"));
    assert_eq!(arguments.last().unwrap(), "a.rs");
}

#[test]
fn statuses_and_counts_are_read() {
    let stats = get_diff_numstat(&Some(b"3\t1\tsrc/a.rs\0".to_vec()), &None, &None);
    let raw = b" M src/a.rs\0?? new file.txt\0A  staged.rs\0".to_vec();
    let (files, untracked) = parse_porcelain_z(&raw, &stats);
    assert_eq!(files.len(), 3);
    assert_eq!(files[0].path, "src/a.rs");
    assert_eq!(files[0].added, Some(3));
    assert_eq!(files[0].deleted, Some(1));
    assert!(!files[0].staged);
    assert!(files[2].staged);
    assert_eq!(untracked, vec!["new file.txt"]);
    let nothing: NameMap<_> = get_diff_numstat(&None, &None, &None);
    assert_eq!(parse_porcelain_z(&vec![], &nothing).0.len(), 0);
}

#[test]
fn a_single_file_is_shown_by_its_diff_its_status_or_its_content() {
    let file = SingleFile {
        workspace: "/work".into(),
        target: "a.rs".into(),
        branch: Some("main".into()),
    };
    assert!(matches!(file.on_diff("diff --git a b\n+x"), FileStep::Done(_)));
    assert!(matches!(file.on_diff(""), FileStep::AskStatus));
    assert!(matches!(file.on_status(&b"?? a.rs".to_vec()), FileStep::ReadFile));
    assert!(matches!(file.on_status(&vec![]), FileStep::Done(_)));
    assert!(matches!(file.on_content(Some("text")), Json::Object(_)));
}

#[test]
fn a_summary_previews_what_is_not_tracked() {
    let stats = get_diff_numstat(&None, &None, &None);
    let (files, untracked) = parse_porcelain_z(&b"?? new.txt\0".to_vec(), &stats);
    let mut summary = ChangeSummary::new("/work".into(), Some("main".into()), files, untracked, "");
    assert_eq!(summary.wanted(), Some("new.txt"));
    summary.on_content(Some("hello"));
    assert_eq!(summary.wanted(), None);
    let answer = summary.answer();
    assert!(matches!(answer, Json::Object(_)));
    let clean = clean_answer("/work", &None);
    assert!(matches!(clean, Json::Object(_)));
}

#[test]
fn hunks_of_noise_are_left_out() {
    let diff = "diff --git a/Cargo.lock b/Cargo.lock\n+noise\ndiff --git a/a.rs b/a.rs\n+code\n";
    let (shown, _) = show_hunks(diff);
    assert!(shown.contains("+code"));
    assert!(!shown.contains("+noise"));
}

fn request(operation: &str) -> HistoryRequest {
    HistoryRequest {
        repository: "/work".into(),
        operation: operation.into(),
        path: Some("src/a.rs".into()),
        start_line: Some(1),
        end_line: Some(2),
        query: Some("needle".into()),
        regex: false,
        limit: Some(5),
        commit: Some("abc".into()),
    }
}

#[test]
fn questions_on_the_history_are_checked() {
    assert!(HistoryOperation::of("pickaxe").is_ok());
    assert!(HistoryOperation::of("nonsense").is_err());
    assert_eq!(request("x").requested_repository().unwrap(), "/work");
    assert_eq!(request("x").record_limit(), 5);
    let query = lineage_query(&request("lineage")).unwrap();
    assert!(lineage_arguments(&query).iter().any(|a| a == "1,2"));
    let mut odd = request("lineage");
    odd.end_line = Some(0);
    assert!(lineage_query(&odd).is_err());
    let query = pickaxe_query(&request("pickaxe")).unwrap();
    let arguments = pickaxe_arguments(&request("pickaxe"), &query, 5);
    assert!(arguments.iter().any(|a| a.contains("needle")));
    assert!(commit_arguments("abc").iter().any(|a| a == "abc"));
    assert!(matches!(history_answer("/work".into(), "x".into(), Json::Null), Json::Object(_)));
}

#[test]
fn the_history_of_a_file_is_read() {
    let renames = parse_renames(
        "COMMIT\u{1f}abc\u{1f}2026-01-01\u{1f}Ada\u{1f}move\n\nR100\told.rs\tnew.rs\nM\tother.rs\n",
    );
    assert_eq!(renames.len(), 1);
    assert_eq!(renames[0].get_str("from"), Some("old.rs"));
    assert_eq!(renames[0].get_str("to"), Some("new.rs"));
    let commit = renames[0].get("commit").unwrap();
    assert_eq!(commit.get_str("commit"), Some("abc"));
    assert_eq!(commit.get_str("subject"), Some("move"));
    let timeline = parse_timeline(
        "abc\u{1f}2026-01-01\u{1f}Ada\u{1f}one\n 1 file changed\ndef\u{1f}2026-01-02\u{1f}Bo\u{1f}two\n",
    );
    assert_eq!(timeline.len(), 2);
    assert_eq!(timeline[0].get_str("stat"), Some("1 file changed"));
    assert_eq!(timeline[1].get_str("stat"), Some(""));
    assert_eq!(timeline[1].get_str("author"), Some("Bo"));
    assert_eq!(bounded("short"), "short");
    assert!(bounded(&"x".repeat(MAX_EVIDENCE_BYTES + 100)).len() < MAX_EVIDENCE_BYTES + 100);
    assert!(git_failure("log", "fatal: bad", "exit status: 128").contains("fatal: bad"));
}

#[test]
fn truncated_text_fits_and_says_so() {
    assert_eq!(truncate_text("Read", "short", 100), "short");
    let cut = truncate_text("Read", &"x".repeat(1_000), 200);
    assert!(cut.len() <= 200);
    assert!(cut.starts_with("xxx"));
    assert!(cut.contains("[truncated: Read result exceeded 200 bytes; showing "));
    let middle = truncate_edges("Shell", &format!("HEAD{}TAIL", "x".repeat(1_000)), 200);
    assert!(middle.len() <= 200);
    assert!(middle.starts_with("HEAD"));
    assert!(middle.ends_with("TAIL"));
    assert_eq!(
        truncation_notice("Read", 10, 5, 20),
        "[truncated: Read result exceeded 10 bytes; showing 5 of 20 bytes]"
    );
    assert_eq!(utf8_prefix("a界b", 3), "a");
    assert_eq!(utf8_suffix("a界b", 3), "b");
    assert_eq!(trim_feeds("a\n\n"), "a");
}
