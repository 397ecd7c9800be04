use git_nope::color::{ColorConfig, Style};
use git_nope::commit::{build_commit, signature_identity, CommitError, CommitSignature, HeadState};
use git_nope::decorations::{
    collect_decorations, decoration_refs, format_decorations, group_decorations, HeadRef,
    RefTarget,
};
use git_nope::dispatch::get_program_name;
use git_nope::graph::{ahead_behind, CommitGraph};
use git_nope::index::{prepare_entries, EntryMode, IndexEntry, Stage};
use git_nope::logfmt::{
    dec_i64, format_full_lines, format_oneline, format_time, hex_of, short_hex_of, CommitDisplay,
};
use git_nope::message::parse_commit_message;
use git_nope::paths::{
    has_git_component, plan_removal, resolve_stage_path, strip_root, RemovalFacts, RemovalPlan,
    StagePathError,
};
use git_nope::remote::{extract_after_domain, normalize_path, parse_remote_slug};
use git_nope::status::{
    audit_remote_label, classify_cleanliness, format_audit_line, format_status_line, parse_args,
    remote_state_label, status_to_porcelain, CleanState, StatusFlags,
};
use git_nope::strutil::dec_u64;
use git_nope::tree::{synthesize_tree, FlatEntry, TreeEntryKind};

fn no_colors() -> ColorConfig {
    ColorConfig { enabled: false }
}

fn flags() -> StatusFlags {
    StatusFlags {
        index_new: false,
        index_modified: false,
        index_deleted: false,
        index_renamed: false,
        index_typechange: false,
        wt_new: false,
        wt_modified: false,
        wt_deleted: false,
        wt_renamed: false,
        wt_typechange: false,
        conflicted: false,
        ignored: false,
    }
}

fn flat(path: &str, id: u8) -> FlatEntry {
    FlatEntry {
        path: path.as_bytes().to_vec(),
        kind: TreeEntryKind::Blob,
        id: vec![id; 20],
    }
}

fn signature() -> CommitSignature {
    CommitSignature {
        name: b"Test User".to_vec(),
        email: b"test@example.com".to_vec(),
        seconds: 1_700_000_000,
        offset: 0,
    }
}

#[test]
fn empty_tree_has_the_well_known_id() {
    let empty: Vec<FlatEntry> = Vec::new();
    let synth = synthesize_tree(&empty).expect("synthesis");
    assert_eq!(hex_of(&synth.root_id), "4b825dc642cb6eb9a060e54bf8d69288fbee4904");
    assert_eq!(synth.writes.len(), 1);
    assert!(synth.writes[0].bytes.is_empty());
}

#[test]
fn tree_synthesis_is_deterministic() {
    let entries = vec![flat("a/b.txt", 1), flat("a/c.txt", 2), flat("d.txt", 3)];
    let one = synthesize_tree(&entries).expect("first");
    let two = synthesize_tree(&entries).expect("second");
    assert_eq!(one.root_id, two.root_id);
    assert_eq!(one.writes.len(), two.writes.len());
    for (w1, w2) in one.writes.iter().zip(two.writes.iter()) {
        assert_eq!(w1.id, w2.id);
        assert_eq!(w1.bytes, w2.bytes);
    }
}

#[test]
fn tree_synthesis_writes_one_object_per_directory() {
    let entries = vec![flat("a/b.txt", 1), flat("a/c.txt", 2), flat("d.txt", 3)];
    let synth = synthesize_tree(&entries).expect("synthesis");
    // the subtree for `a`, then the root
    assert_eq!(synth.writes.len(), 2);
    assert_eq!(synth.writes[1].id, synth.root_id);
    assert_ne!(hex_of(&synth.root_id), "4b825dc642cb6eb9a060e54bf8d69288fbee4904");
    let sub = &synth.writes[0].bytes;
    assert!(sub.starts_with(b"100644 b.txt\0"));
    let root = &synth.writes[1].bytes;
    assert!(root.starts_with(b"40000 a\0"));
}

#[test]
fn prepare_entries_skips_tombstones_and_reports_conflicts() {
    let mut keep = IndexEntry {
        path: b"kept.txt".to_vec(),
        mode: EntryMode::Regular,
        id: vec![1; 20],
        stage: Stage::Unconflicted,
        remove: false,
    };
    let gone = IndexEntry {
        path: b"gone.txt".to_vec(),
        mode: EntryMode::Regular,
        id: vec![2; 20],
        stage: Stage::Unconflicted,
        remove: true,
    };
    let flats = prepare_entries(&vec![gone, keep.clone_for_test()]).expect("no conflict");
    assert_eq!(flats.len(), 1);
    assert_eq!(flats[0].path, b"kept.txt".to_vec());
    keep.stage = Stage::Ours;
    assert!(prepare_entries(&vec![keep]).is_err());
}

trait CloneForTest {
    fn clone_for_test(&self) -> IndexEntry;
}

impl CloneForTest for IndexEntry {
    fn clone_for_test(&self) -> IndexEntry {
        IndexEntry {
            path: self.path.clone(),
            mode: self.mode,
            id: self.id.clone(),
            stage: self.stage,
            remove: self.remove,
        }
    }
}

#[test]
fn commit_on_detached_head_plans_nothing() {
    let entries: Vec<IndexEntry> = vec![];
    let err = build_commit(&HeadState::Detached, &entries, &b"msg".to_vec(), &signature())
        .expect_err("detached");
    assert_eq!(err, CommitError::DetachedHead);
    assert!(err.message().contains("Detached HEAD"));
}

#[test]
fn commit_records_branch_tip_as_parent() {
    let tip = vec![0x42u8; 20];
    let entries: Vec<IndexEntry> = vec![];
    let plan = build_commit(
        &HeadState::Attached { tip: tip.clone() },
        &entries,
        &b"msg".to_vec(),
        &signature(),
    )
    .expect("plan");
    assert_eq!(plan.parents, vec![tip]);
    assert_ne!(plan.commit_id, plan.root_tree_id);
    let parent_line = format!("parent {}", hex_of(&plan.parents[0]));
    let text = String::from_utf8_lossy(&plan.commit_bytes).to_string();
    assert!(text.contains(&parent_line));
    assert!(text.contains("Test User"));
}

#[test]
fn signature_identity_falls_back_to_default() {
    let (n, e) = signature_identity(None, None);
    assert_eq!(n, "agt");
    assert_eq!(e, "agt@local");
    let (n2, e2) = signature_identity(Some("A".to_string()), Some("a@b".to_string()));
    assert_eq!(n2, "A");
    assert_eq!(e2, "a@b");
}

#[test]
fn remote_slug_extraction() {
    assert_eq!(
        parse_remote_slug("https://github.com/org/repo.git"),
        Some("org/repo".to_string())
    );
    assert_eq!(
        parse_remote_slug("git@github.com:org/repo.git"),
        Some("org/repo".to_string())
    );
    assert_eq!(parse_remote_slug("https://github.com/org/repo/extra"), None);
    assert_eq!(parse_remote_slug("http://host/org/repo"), Some("org/repo".to_string()));
    assert_eq!(parse_remote_slug("git@github.com"), None);
    assert_eq!(parse_remote_slug("org/repo"), Some("org/repo".to_string()));
    assert_eq!(normalize_path("org/repo.git.git"), Some("org/repo.git".to_string()));
    assert_eq!(extract_after_domain("github.com/org/repo"), Some("org/repo".to_string()));
    assert_eq!(extract_after_domain("github.com"), None);
}

#[test]
fn status_precedence_dirty_wins_over_tainted() {
    let mut modified = flags();
    modified.wt_modified = true;
    let mut untracked = flags();
    untracked.wt_new = true;
    assert_eq!(classify_cleanliness(&vec![modified, untracked]), CleanState::Dirty);
    assert_eq!(classify_cleanliness(&vec![untracked]), CleanState::Tainted);
    assert_eq!(classify_cleanliness(&vec![flags()]), CleanState::Clean);
    let none: Vec<StatusFlags> = Vec::new();
    assert_eq!(classify_cleanliness(&none), CleanState::Clean);
    let mut ignored = flags();
    ignored.wt_new = true;
    ignored.ignored = true;
    assert_eq!(classify_cleanliness(&vec![ignored]), CleanState::Clean);
}

#[test]
fn porcelain_codes() {
    let mut added = flags();
    added.index_new = true;
    assert_eq!(status_to_porcelain(&added), ('A', ' '));
    let mut untracked = flags();
    untracked.wt_new = true;
    assert_eq!(status_to_porcelain(&untracked), ('?', '?'));
    let mut conflicted = flags();
    conflicted.index_modified = true;
    conflicted.conflicted = true;
    assert_eq!(status_to_porcelain(&conflicted), ('U', 'U'));
    let mut both = flags();
    both.index_new = true;
    both.wt_modified = true;
    assert_eq!(status_to_porcelain(&both), ('A', 'M'));
    let mut deleted = flags();
    deleted.index_deleted = true;
    deleted.wt_deleted = true;
    assert_eq!(status_to_porcelain(&deleted), ('D', 'D'));
    let mut renamed = flags();
    renamed.index_renamed = true;
    renamed.wt_typechange = true;
    assert_eq!(status_to_porcelain(&renamed), ('R', 'T'));
}

#[test]
fn ahead_behind_counts_exclusive_ancestries() {
    // 0 is the merge base; 1 and 2 sit on separate branches; 3 extends 1.
    let g = CommitGraph {
        parents: vec![vec![], vec![0], vec![0], vec![1]],
    };
    assert!(g.check_wf());
    assert_eq!(ahead_behind(&g, 3, 2), (2, 1));
    assert_eq!(ahead_behind(&g, 2, 3), (1, 2));
    assert_eq!(ahead_behind(&g, 1, 1), (0, 0));
    assert_eq!(ahead_behind(&g, 3, 0), (2, 0));
}

#[test]
fn containment_checks() {
    assert_eq!(strip_root("/repo/sub/file.txt", "/repo"), Some("sub/file.txt".to_string()));
    assert_eq!(strip_root("/repo", "/repo"), Some(String::new()));
    assert_eq!(strip_root("/repository/file.txt", "/repo"), None);
    assert_eq!(strip_root("/elsewhere/file.txt", "/repo"), None);
    assert!(has_git_component("/repo/.git/config"));
    assert!(has_git_component(".git"));
    assert!(!has_git_component("/repo/dot.github/file"));
    assert!(!has_git_component("/repo/a.git.txt"));
}

#[test]
fn removal_plans_follow_the_facts() {
    let base = RemovalFacts {
        given: "sub".to_string(),
        abs: "/repo/sub".to_string(),
        is_symlink: false,
        canonical: Some("/repo/sub".to_string()),
        exists: true,
        is_dir: true,
        in_index_file: false,
        in_index_dir: true,
    };
    match plan_removal(&base, "/repo") {
        RemovalPlan::DeleteDirAndIndex { rel } => assert_eq!(rel, "sub"),
        other => panic!("unexpected plan: {:?}", plan_name(&other)),
    }
    let gone = RemovalFacts { exists: false, is_dir: false, ..facts_like(&base) };
    match plan_removal(&gone, "/repo") {
        RemovalPlan::RemoveIndexEntries { rel, file, dir } => {
            assert_eq!(rel, "sub");
            assert!(!file);
            assert!(dir);
        },
        other => panic!("unexpected plan: {:?}", plan_name(&other)),
    }
    let nothing = RemovalFacts {
        exists: false,
        is_dir: false,
        in_index_dir: false,
        ..facts_like(&base)
    };
    assert!(matches!(plan_removal(&nothing, "/repo"), RemovalPlan::NoMatch { .. }));
    let outside = RemovalFacts {
        abs: "/tmp/sub".to_string(),
        canonical: Some("/tmp/sub".to_string()),
        ..facts_like(&base)
    };
    assert!(matches!(plan_removal(&outside, "/repo"), RemovalPlan::OutsideRepo));
    let metadata = RemovalFacts {
        abs: "/repo/.git/config".to_string(),
        ..facts_like(&base)
    };
    assert!(matches!(plan_removal(&metadata, "/repo"), RemovalPlan::RejectMetadata));
}

fn facts_like(f: &RemovalFacts) -> RemovalFacts {
    RemovalFacts {
        given: f.given.clone(),
        abs: f.abs.clone(),
        is_symlink: f.is_symlink,
        canonical: f.canonical.clone(),
        exists: f.exists,
        is_dir: f.is_dir,
        in_index_file: f.in_index_file,
        in_index_dir: f.in_index_dir,
    }
}

fn plan_name(p: &RemovalPlan) -> &'static str {
    match p {
        RemovalPlan::RejectGlob => "RejectGlob",
        RemovalPlan::RejectMetadata => "RejectMetadata",
        RemovalPlan::SkipSymlink => "SkipSymlink",
        RemovalPlan::OutsideRepo => "OutsideRepo",
        RemovalPlan::DeleteDirAndIndex { .. } => "DeleteDirAndIndex",
        RemovalPlan::DeleteFileAndIndex { .. } => "DeleteFileAndIndex",
        RemovalPlan::RemoveIndexEntries { .. } => "RemoveIndexEntries",
        RemovalPlan::NoMatch { .. } => "NoMatch",
    }
}

#[test]
fn status_line_formats_without_colors() {
    let empty: Vec<RefTarget> = Vec::new();
    let deco = collect_decorations("main".to_string(), &vec![0x42; 20], &empty, &empty);
    let line = format_status_line(&no_colors(), CleanState::Dirty, None, "main", "abc1234", &deco);
    assert_eq!(line, "Dirty <no-remote> main abc1234");
    let slug = "org/repo".to_string();
    let line2 = format_status_line(
        &no_colors(),
        CleanState::Clean,
        Some(&slug),
        "main",
        "abc1234",
        &deco,
    );
    assert_eq!(line2, "Clean org/repo main abc1234");
}

#[test]
fn status_line_shows_matching_decorations() {
    let head = vec![0x42u8; 20];
    let tags = vec![
        RefTarget { name: "v1".to_string(), id: vec![0x42; 20] },
        RefTarget { name: "old".to_string(), id: vec![0x01; 20] },
    ];
    let remotes = vec![RefTarget { name: "origin/main".to_string(), id: vec![0x42; 20] }];
    let deco = collect_decorations("main".to_string(), &head, &tags, &remotes);
    assert_eq!(deco.tags, vec!["v1".to_string()]);
    assert_eq!(deco.remote_branches, vec!["origin/main".to_string()]);
    let line = format_status_line(&no_colors(), CleanState::Clean, None, "main", "abc1234", &deco);
    assert_eq!(line, "Clean <no-remote> main (HEAD -> main, origin/main, v1) abc1234");
}

#[test]
fn remote_labels() {
    assert_eq!(remote_state_label(&no_colors(), 0, 0), "UpToDate");
    assert_eq!(remote_state_label(&no_colors(), 2, 0), "Ahead(2)");
    assert_eq!(remote_state_label(&no_colors(), 0, 3), "Behind(3)");
    assert_eq!(remote_state_label(&no_colors(), 2, 3), "Diverged(+2/-3)");
    assert_eq!(audit_remote_label(&no_colors(), 0, 0), "UpToDate");
    assert_eq!(audit_remote_label(&no_colors(), 2, 3), "Diverged (ahead 2, behind 3)");
    assert_eq!(audit_remote_label(&no_colors(), 1, 0), "Ahead (1)");
    assert_eq!(audit_remote_label(&no_colors(), 0, 1), "Behind (1)");
}

#[test]
fn audit_line_formats_with_pipes() {
    let line = format_audit_line(&no_colors(), CleanState::Tainted, None, "main", "abc1234");
    assert_eq!(line, "Tainted | no-remote | main | abc1234");
    let remote = "repo".to_string();
    let line2 = format_audit_line(&no_colors(), CleanState::Clean, Some(&remote), "main", "abc1234");
    assert_eq!(line2, "Clean | repo | main | abc1234");
}

#[test]
fn parse_args_flags() {
    assert_eq!(parse_args(&to_args(&["GitStatus"])).unwrap(), (false, false));
    assert_eq!(
        parse_args(&to_args(&["GitStatus", "--no-colors", "-r"])).unwrap(),
        (true, true)
    );
    assert_eq!(parse_args(&to_args(&["GitStatus", "--remote"])).unwrap(), (false, true));
    let err = parse_args(&to_args(&["GitStatus", "--bogus"])).unwrap_err();
    assert!(err.message().contains("Unsupported flag: --bogus"));
}

fn to_args(parts: &[&str]) -> Vec<String> {
    parts.iter().map(|p| p.to_string()).collect()
}

#[test]
fn decoration_dedup_drops_the_bare_branch() {
    let refs = vec![
        "HEAD -> main".to_string(),
        "main".to_string(),
        "origin/main".to_string(),
    ];
    let suffix = format_decorations(&refs, &no_colors());
    assert_eq!(suffix, " (HEAD -> main, origin/main)");
    let no_refs: Vec<String> = Vec::new();
    assert_eq!(format_decorations(&no_refs, &no_colors()), "");
}

#[test]
fn log_decorations_group_by_target() {
    let head = Some(HeadRef { branch: Some("main".to_string()), id: vec![0x42; 20] });
    let locals = vec![RefTarget { name: "main".to_string(), id: vec![0x42; 20] }];
    let remotes = vec![RefTarget { name: "origin/main".to_string(), id: vec![0x42; 20] }];
    let tags = vec![RefTarget { name: "v2".to_string(), id: vec![0x07; 20] }];
    let refs = decoration_refs(&head, &locals, &remotes, &tags);
    let groups = group_decorations(&refs);
    assert_eq!(groups.len(), 2);
    assert_eq!(groups[0].id, vec![0x42; 20]);
    assert_eq!(
        groups[0].names,
        vec![
            "HEAD -> main".to_string(),
            "main".to_string(),
            "origin/main".to_string()
        ]
    );
    assert_eq!(groups[1].names, vec!["tag: v2".to_string()]);
}

#[test]
fn time_renders_the_epoch() {
    assert_eq!(format_time(0), "Thu Jan  1 00:00:00 1970 +0000");
    assert_eq!(format_time(86400), "Fri Jan  2 00:00:00 1970 +0000");
}

#[test]
fn decimal_rendering() {
    assert_eq!(dec_u64(0), "0");
    assert_eq!(dec_u64(7), "7");
    assert_eq!(dec_u64(1234), "1234");
    assert_eq!(dec_u64(u64::MAX), "18446744073709551615");
    assert_eq!(dec_i64(-5), "-5");
    assert_eq!(dec_i64(0), "0");
    assert_eq!(dec_i64(i64::MIN), "-9223372036854775808");
}

#[test]
fn hex_rendering() {
    assert_eq!(hex_of(&vec![0x00, 0xff, 0x1a]), "00ff1a");
    assert_eq!(short_hex_of(&vec![0xab, 0xcd, 0xef, 0x12, 0x34]), "abcdef1");
}

#[test]
fn oneline_log_format() {
    let c = CommitDisplay {
        id: vec![0xab; 20],
        author_name: "A".to_string(),
        author_email: "a@b".to_string(),
        seconds: 0,
        message: "subject\n\nbody".to_string(),
        summary: "subject".to_string(),
    };
    let no_refs: Vec<String> = Vec::new();
    let line = format_oneline(&c, &no_refs, &no_colors());
    assert_eq!(line, "abababa subject");
}

#[test]
fn paint_wraps_only_when_enabled() {
    let on = ColorConfig { enabled: true };
    let painted = on.paint(&Style::Red, "text");
    assert_eq!(painted, "\u{1b}[31mtext\u{1b}[0m");
    assert_eq!(no_colors().paint(&Style::Red, "text"), "text");
}

#[test]
fn color_config_reads_flag_and_environment() {
    assert!(!ColorConfig::from_flag_and_env(true, &None).enabled);
    assert!(ColorConfig::from_flag_and_env(false, &None).enabled);
    assert!(!ColorConfig::from_flag_and_env(false, &Some("FALSE".to_string())).enabled);
    assert!(!ColorConfig::from_flag_and_env(false, &Some("0".to_string())).enabled);
    assert!(!ColorConfig::from_flag_and_env(false, &Some("".to_string())).enabled);
    assert!(ColorConfig::from_flag_and_env(false, &Some("true".to_string())).enabled);
    assert!(ColorConfig::from_flag_and_env(false, &Some("anything".to_string())).enabled);
}

#[test]
fn program_names() {
    let arg = "/usr/local/bin/GitCommit".to_string();
    assert_eq!(get_program_name(Some(&arg)), Some("GitCommit".to_string()));
    let exe = "GitCommit.exe".to_string();
    assert_eq!(get_program_name(Some(&exe)), Some("GitCommit".to_string()));
    let bare = "git-nope".to_string();
    assert_eq!(get_program_name(Some(&bare)), Some("git-nope".to_string()));
    assert_eq!(get_program_name(None), None);
}


#[test]
fn stage_path_refusals() {
    let err = resolve_stage_path("/repo/.git/hooks", &Some("/repo/.git/hooks".to_string()), "/repo")
        .expect_err("metadata");
    assert_eq!(err, StagePathError::Metadata);
    assert!(err.message().contains(".git"));
    let err2 = resolve_stage_path("/repo/missing.txt", &None, "/repo").expect_err("unresolvable");
    assert_eq!(err2, StagePathError::Unresolvable);
    assert!(err2.message().contains("Failed to resolve path"));
    let ok = resolve_stage_path(
        "/repo/sub/../f.txt",
        &Some("/repo/f.txt".to_string()),
        "/repo",
    )
    .expect("inside");
    assert_eq!(ok, "f.txt");
}

#[test]
fn removal_deletes_files_that_exist() {
    let facts = RemovalFacts {
        given: "f.txt".to_string(),
        abs: "/repo/f.txt".to_string(),
        is_symlink: false,
        canonical: Some("/repo/f.txt".to_string()),
        exists: true,
        is_dir: false,
        in_index_file: true,
        in_index_dir: false,
    };
    match plan_removal(&facts, "/repo") {
        RemovalPlan::DeleteFileAndIndex { rel } => assert_eq!(rel, "f.txt"),
        _ => panic!("expected a file deletion"),
    }
}

#[test]
fn full_log_format() {
    let c = CommitDisplay {
        id: vec![0xab; 20],
        author_name: "A".to_string(),
        author_email: "a@b".to_string(),
        seconds: 0,
        message: "subject\n\nbody".to_string(),
        summary: "subject".to_string(),
    };
    let no_refs: Vec<String> = Vec::new();
    let lines = format_full_lines(&c, &no_refs, &no_colors());
    assert_eq!(
        lines,
        vec![
            format!("commit {}", "ab".repeat(20)),
            "Author: A <a@b>".to_string(),
            "Date:   Thu Jan  1 00:00:00 1970 +0000".to_string(),
            "".to_string(),
            "    subject".to_string(),
            "    ".to_string(),
            "    body".to_string(),
        ]
    );
}


#[test]
fn graph_wellformedness_check() {
    let good = CommitGraph { parents: vec![vec![], vec![0]] };
    assert!(good.check_wf());
    let bad = CommitGraph { parents: vec![vec![5]] };
    assert!(!bad.check_wf());
}

#[test]
fn message_parser_ignores_bare_arguments() {
    let argv: Vec<String> = ["GitCommit", "file.txt", "-m", "msg"]
        .iter()
        .map(|p| p.to_string())
        .collect();
    assert_eq!(parse_commit_message(&argv).unwrap(), "msg");
}

#[test]
fn strip_root_handles_the_filesystem_root() {
    assert_eq!(strip_root("/a", "/"), Some("a".to_string()));
    assert_eq!(strip_root("/", "/"), Some(String::new()));
}

#[test]
fn remote_slug_without_suffix() {
    assert_eq!(
        parse_remote_slug("git@github.com:org/repo"),
        Some("org/repo".to_string())
    );
}


#[test]
fn commit_refuses_unrepresentable_offsets() {
    let entries: Vec<IndexEntry> = vec![];
    let mut sig = signature();
    sig.offset = 360000;
    let err = build_commit(&HeadState::Unborn, &entries, &b"msg".to_vec(), &sig)
        .expect_err("offset of one hundred hours");
    assert_eq!(err, CommitError::ObjectEncoding);
    sig.offset = 359999;
    assert!(build_commit(&HeadState::Unborn, &entries, &b"msg".to_vec(), &sig).is_ok());
}

#[test]
fn commit_refuses_header_corrupting_identities() {
    let entries: Vec<IndexEntry> = vec![];
    let mut sig = signature();
    sig.name = b"Bad <Name>".to_vec();
    let err = build_commit(&HeadState::Unborn, &entries, &b"msg".to_vec(), &sig)
        .expect_err("angle brackets in the name");
    assert_eq!(err, CommitError::ObjectEncoding);
    let mut sig2 = signature();
    sig2.email = b"line\nbreak".to_vec();
    let err2 = build_commit(&HeadState::Unborn, &entries, &b"msg".to_vec(), &sig2)
        .expect_err("newline in the email");
    assert_eq!(err2, CommitError::ObjectEncoding);
}

#[test]
fn commit_refuses_malformed_parent_ids() {
    let entries: Vec<IndexEntry> = vec![];
    let err = build_commit(
        &HeadState::Attached { tip: vec![0x11; 7] },
        &entries,
        &b"msg".to_vec(),
        &signature(),
    )
    .expect_err("seven-byte parent id");
    assert_eq!(err, CommitError::ObjectEncoding);
}
