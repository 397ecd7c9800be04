use git_nope::commit::{build_commit, CommitError, CommitSignature, HeadState};
use git_nope::index::{EntryMode, IndexEntry, Stage};
use git_nope::message::parse_commit_message;
use git_nope::paths::{plan_removal, resolve_stage_path, RemovalFacts, RemovalPlan, StagePathError};

fn args(parts: &[&str]) -> Vec<String> {
    parts.iter().map(|p| p.to_string()).collect()
}

fn entry(path: &str, stage: Stage) -> IndexEntry {
    IndexEntry {
        path: path.as_bytes().to_vec(),
        mode: EntryMode::Regular,
        id: vec![0x11; 20],
        stage,
        remove: false,
    }
}

fn signature() -> CommitSignature {
    CommitSignature {
        name: b"Test User".to_vec(),
        email: b"test@example.com".to_vec(),
        seconds: 1_700_000_000,
        offset: 0,
    }
}

#[test]
fn git_commit_multiple_messages_join_with_blank_line() {
    let argv = args(&["GitCommit", "-m", "first", "-m", "second"]);
    let body = parse_commit_message(&argv).expect("commit");
    assert_eq!(body, "first\n\nsecond");
}

#[test]
fn git_commit_requires_message_flag() {
    let argv = args(&["GitCommit"]);
    let err = parse_commit_message(&argv).expect_err("missing -m");
    assert!(err.message().contains("requires -m/--message"));
}

#[test]
fn git_commit_requires_message_value_after_flag() {
    let argv = args(&["GitCommit", "-m"]);
    let err = parse_commit_message(&argv).expect_err("missing message");
    assert!(err.message().contains("Expected message after -m"));
}

#[test]
fn git_commit_rejects_unsupported_flag() {
    let argv = args(&["GitCommit", "--amend", "-m", "msg"]);
    let err = parse_commit_message(&argv).expect_err("unsupported flag");
    assert!(err.message().contains("Unsupported GitCommit flag"));
}

#[test]
fn git_rm_rejects_glob_metachars_in_args() {
    let facts = RemovalFacts {
        given: "*.txt".to_string(),
        abs: "/repo/*.txt".to_string(),
        is_symlink: false,
        canonical: None,
        exists: false,
        is_dir: false,
        in_index_file: false,
        in_index_dir: false,
    };
    let plan = plan_removal(&facts, "/repo");
    assert!(matches!(plan, RemovalPlan::RejectGlob));
    let staged = entry("a.txt", Stage::Unconflicted);
    assert_eq!(staged.path, b"a.txt".to_vec());
}

#[test]
fn git_rm_skips_symlink_and_does_not_delete_target() {
    let facts = RemovalFacts {
        given: "link.txt".to_string(),
        abs: "/repo/link.txt".to_string(),
        is_symlink: true,
        canonical: Some("/repo/target.txt".to_string()),
        exists: true,
        is_dir: false,
        in_index_file: false,
        in_index_dir: false,
    };
    let plan = plan_removal(&facts, "/repo");
    assert!(matches!(plan, RemovalPlan::SkipSymlink));
}

#[test]
fn git_add_rejects_path_outside_repo() {
    let canonical = Some("/tmp/outside.txt".to_string());
    let err = resolve_stage_path("/tmp/outside.txt", &canonical, "/tmp/repo")
        .expect_err("should reject outside path");
    assert_eq!(err, StagePathError::OutsideRepo);
    assert!(err.message().contains("outside of repository"));
}

#[test]
fn test_git_commit_applet_success() {
    let entries = vec![entry("test.txt", Stage::Unconflicted)];
    let message = b"feat: initial commit".to_vec();
    let plan = build_commit(&HeadState::Unborn, &entries, &message, &signature())
        .expect("commit plan");
    assert!(plan.parents.is_empty());
    assert_eq!(plan.commit_id.len(), 20);
    assert!(plan.commit_bytes.starts_with(b"tree "));
    assert!(plan
        .commit_bytes
        .windows(message.len())
        .any(|w| w == message.as_slice()));
}

#[test]
fn test_git_commit_no_message() {
    let argv = args(&["GitCommit"]);
    let err = parse_commit_message(&argv).expect_err("no message");
    assert!(err.message().contains("GitCommit requires -m/--message"));
}

#[test]
fn test_git_commit_fails_with_conflicts() {
    let entries = vec![
        entry("conflict.txt", Stage::Base),
        entry("conflict.txt", Stage::Ours),
        entry("conflict.txt", Stage::Theirs),
    ];
    let message = b"should fail".to_vec();
    let tip = vec![0x22u8; 20];
    let err = build_commit(&HeadState::Attached { tip }, &entries, &message, &signature())
        .expect_err("should fail");
    assert_eq!(err, CommitError::Conflicted);
    assert!(err.message().contains("Cannot commit with unmerged paths"));
}
