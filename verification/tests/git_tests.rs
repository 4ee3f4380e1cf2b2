use dif::git::{parse_branch_listing, parse_nul_terminated, parse_porcelain_status, UnstagedKind};

#[test]
fn parses_staged_unstaged_and_untracked_entries() {
    let raw = b"M  staged.txt\0 M unstaged.txt\0MM both.txt\0?? new.txt\0";
    let status = parse_porcelain_status(raw);

    assert_eq!(
        status.staged,
        vec!["both.txt".to_string(), "staged.txt".to_string()]
    );
    assert_eq!(status.unstaged.len(), 3);
    assert_eq!(status.unstaged[0].path, "both.txt");
    assert_eq!(status.unstaged[0].kind, UnstagedKind::Versioned);
    assert_eq!(status.unstaged[1].path, "new.txt");
    assert_eq!(status.unstaged[1].kind, UnstagedKind::Untracked);
    assert_eq!(status.unstaged[2].path, "unstaged.txt");
    assert_eq!(status.unstaged[2].kind, UnstagedKind::Versioned);
}

#[test]
fn uses_destination_path_for_renames() {
    let raw = b"R  old-name.txt\0new-name.txt\0";
    let status = parse_porcelain_status(raw);

    assert_eq!(status.staged, vec!["new-name.txt".to_string()]);
    assert!(status.unstaged.is_empty());
}

#[test]
fn parses_branch_listing_with_head_markers() {
    let raw = b"*\tmain\n \tfeature/login\n";
    let branches = parse_branch_listing(raw);

    assert_eq!(branches.len(), 2);
    assert_eq!(branches[0].name, "main");
    assert!(branches[0].current);
    assert_eq!(branches[1].name, "feature/login");
    assert!(!branches[1].current);
}

#[test]
fn parses_branch_listing_default_style_fallback() {
    let raw = b"* main\n  hotfix\n";
    let branches = parse_branch_listing(raw);

    assert_eq!(branches.len(), 2);
    assert_eq!(branches[0].name, "main");
    assert!(branches[0].current);
    assert_eq!(branches[1].name, "hotfix");
    assert!(!branches[1].current);
}

#[test]
fn splits_nul_records_and_drops_empties() {
    let raw = b"one\0\0two\0";
    let records = parse_nul_terminated(raw);
    assert_eq!(records, vec!["one".to_string(), "two".to_string()]);

    assert!(parse_nul_terminated(b"").is_empty());
}

#[test]
fn ignores_short_and_ignored_records() {
    let raw = b"!! junk.txt\0xy\0 M kept.txt\0";
    let status = parse_porcelain_status(raw);

    assert!(status.staged.is_empty());
    assert_eq!(status.unstaged.len(), 1);
    assert_eq!(status.unstaged[0].path, "kept.txt");
}

#[test]
fn duplicate_staged_paths_collapse() {
    let raw = b"MM same.txt\0AM same.txt\0";
    let status = parse_porcelain_status(raw);

    assert_eq!(status.staged, vec!["same.txt".to_string()]);
    assert_eq!(status.unstaged.len(), 1);
    assert_eq!(status.unstaged[0].path, "same.txt");
    assert_eq!(status.unstaged[0].kind, UnstagedKind::Versioned);
}
