use commitbot::git::{
    choose_pr_mode, collect_pr_items, current_branch, find_first_pr_number, repo_id_from_url,
    staged_files, PrItem, PrSummaryMode,
};

fn item(pr: Option<u32>) -> PrItem {
    PrItem { commit_hash: "abc".to_string(), title: "t".to_string(), body: String::new(), pr_number: pr }
}

#[test]
fn branch_name_is_trimmed() {
    assert_eq!(current_branch("  feature/x\n"), "feature/x");
}

#[test]
fn staged_file_list() {
    assert_eq!(staged_files("src/a.rs\n  src/b.rs \r\n\n"), vec!["src/a.rs".to_string(), "src/b.rs".to_string()]);
    assert!(staged_files("").is_empty());
}

#[test]
fn pr_number_references() {
    assert_eq!(find_first_pr_number("Merge pull request #42 from x"), Some(42));
    assert_eq!(find_first_pr_number("# heading then #7"), Some(7));
    assert_eq!(find_first_pr_number("no refs"), None);
    assert_eq!(find_first_pr_number("#"), None);
    assert_eq!(find_first_pr_number("#99999999999"), Some(u32::MAX));
    assert_eq!(find_first_pr_number("é#12x"), Some(12));
}

#[test]
fn pr_log_blocks() {
    let log = "aaaaaaaaaa\nFix login (#12)\nbody line 1\r\nbody line 2\n---END---\nbbbbbbbbbb\nRefactor\nSee #7\n---END---\n";
    let items = collect_pr_items(log);
    assert_eq!(items.len(), 2);
    assert_eq!(items[0].commit_hash, "aaaaaaaaaa");
    assert_eq!(items[0].title, "Fix login (#12)");
    assert_eq!(items[0].body, "body line 1\nbody line 2");
    assert_eq!(items[0].pr_number, Some(12));
    assert_eq!(items[1].title, "Refactor");
    assert_eq!(items[1].body, "See #7");
    assert_eq!(items[1].pr_number, Some(7));
    assert!(collect_pr_items("  \n").is_empty());
    let lone = collect_pr_items("cccc\n---END---");
    assert_eq!(lone.len(), 1);
    assert_eq!(lone[0].title, "");
    assert_eq!(lone[0].pr_number, None);
}

#[test]
fn summary_mode_choice() {
    let same = vec![item(Some(3)), item(None), item(Some(3))];
    let mixed = vec![item(Some(3)), item(Some(4))];
    assert_eq!(choose_pr_mode(&same, false, false), PrSummaryMode::ByCommits);
    assert_eq!(choose_pr_mode(&mixed, false, false), PrSummaryMode::ByPrs);
    assert_eq!(choose_pr_mode(&mixed, false, true), PrSummaryMode::ByCommits);
    assert_eq!(choose_pr_mode(&same, true, true), PrSummaryMode::ByPrs);
    assert_eq!(PrSummaryMode::ByPrs.as_str(), "prs");
    assert_eq!(PrSummaryMode::ByCommits.as_str(), "commits");
}

#[test]
fn remote_url_identifiers() {
    assert_eq!(repo_id_from_url("git@github.com:owner/repo.git\n"), Some("owner/repo".to_string()));
    assert_eq!(repo_id_from_url("https://github.com/owner/repo"), Some("owner/repo".to_string()));
    assert_eq!(repo_id_from_url("https://gitlab.com/group/sub/repo.git.git"), Some("sub/repo".to_string()));
    assert_eq!(repo_id_from_url("ssh://git@host:22/a/b/"), Some("a/b".to_string()));
    assert_eq!(repo_id_from_url("repo"), None);
    assert_eq!(repo_id_from_url(""), None);
}
