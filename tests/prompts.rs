use commitbot::change::{FileCategory, FileChange};
use commitbot::git::{PrItem, PrSummaryMode};
use commitbot::prompt_builder::{
    commit_message_prompt, commit_message_simple_prompt, file_summary_prompt, pr_message_prompt,
    render_per_file_summaries,
};
use commitbot::prompts::{FILE_SUMMARY, PR_INSTRUCTIONS, SYSTEM_INSTRUCTIONS};

fn change(path: &str, category: FileCategory, summary: Option<&str>) -> FileChange {
    FileChange {
        path: path.to_string(),
        category,
        diff: "+x".to_string(),
        summary: summary.map(|s| s.to_string()),
    }
}

fn commit(hash: &str, title: &str, body: &str, pr: Option<u32>) -> PrItem {
    PrItem { commit_hash: hash.to_string(), title: title.to_string(), body: body.to_string(), pr_number: pr }
}

#[test]
fn file_summary_prompt_text() {
    let p = file_summary_prompt("main", &change("src/a.rs", FileCategory::Supporting, None), Some("Speed up"));
    assert_eq!(p.system, format!("{FILE_SUMMARY}\nOverall ticket goal: Speed up"));
    assert_eq!(p.user, "Branch: main\nFile: src/a.rs\nCategory: supporting\n\nDiff:\n```diff\n+x\n```");
    let q = file_summary_prompt("main", &change("b", FileCategory::Main, None), None);
    assert_eq!(q.system, FILE_SUMMARY);
}

#[test]
fn per_file_summaries_skip_ignored() {
    let files = vec![
        change("a", FileCategory::Main, Some("did a")),
        change("b", FileCategory::Ignored, Some("skip")),
        change("c", FileCategory::Consequence, None),
    ];
    let text = render_per_file_summaries(&files);
    assert_eq!(
        text,
        "File: a\nCategory: main\nSummary:\ndid a\n\nFile: c\nCategory: consequence\nSummary:\n[missing per-file summary]\n\n"
    );
    let p = commit_message_prompt("dev", &files, None);
    assert_eq!(p.system, SYSTEM_INSTRUCTIONS);
    assert_eq!(p.user, format!("Branch: dev\n\nPer-file summaries:\n\n{text}"));
}

#[test]
fn simple_commit_prompt_text() {
    let p = commit_message_simple_prompt("dev", "diff --git", Some("goal"));
    assert_eq!(p.system, format!("{SYSTEM_INSTRUCTIONS}\nOverall ticket goal: goal"));
    assert_eq!(p.user, "Branch: dev\n\nDiff:\n```diff\ndiff --git\n```");
}

#[test]
fn pr_prompt_by_commits() {
    let items = vec![
        commit("0123456789", " Add login ", "line 1\nline 2", Some(12)),
        commit("abc", "Tidy", "   ", None),
    ];
    let p = pr_message_prompt("main", "feature", PrSummaryMode::ByCommits, &items, None);
    assert_eq!(p.system, PR_INSTRUCTIONS);
    assert_eq!(
        p.user,
        "Base branch: main\nFeature branch: feature\nSummary mode: commits\n\n\
         Commit history (oldest first):\n\
         - 0123456 (PR #12): Add login\n  Body:\n  line 1\n  line 2\n\
         - abc: Tidy\n"
    );
}

#[test]
fn pr_prompt_by_prs_groups_in_number_order() {
    let items = vec![
        commit("1111111111", "Second PR start", "", Some(20)),
        commit("2222222222", "First PR", "", Some(3)),
        commit("3333333333", "Loose fix", "", None),
        commit("4444444444", "Second PR more", "", Some(20)),
    ];
    let p = pr_message_prompt("main", "rel", PrSummaryMode::ByPrs, &items, Some("t"));
    assert_eq!(p.system, format!("{PR_INSTRUCTIONS}\nOverall ticket goal: t"));
    assert_eq!(
        p.user,
        "Base branch: main\nFeature branch: rel\nSummary mode: prs\n\n\
         Pull requests contributing to this branch (oldest commits first):\n\
         \nPR #3: First PR [2222222]\n\
         \nPR #20: Second PR start [1111111]\n\
         Additional commits in this PR:\n- 4444444: Second PR more\n\
         \nCommits without associated PR numbers (may be small fixes or direct pushes):\n\
         - 3333333: Loose fix\n"
    );
}

#[test]
fn pr_prompt_without_unnumbered_commits() {
    let items = vec![commit("9", "Only", "", Some(u32::MAX))];
    let p = pr_message_prompt("a", "b", PrSummaryMode::ByPrs, &items, None);
    assert!(p.user.ends_with("\nPR #4294967295: Only [9]\n"));
    assert!(!p.user.contains("Commits without"));
}
