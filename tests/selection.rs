use commitbot::change::{apply_summaries, pending_summaries, FileCategory, FileChange};
use commitbot::menu::{entry_label, menu_step, MenuKey, MenuStep};

fn change(path: &str, category: FileCategory) -> FileChange {
    FileChange { path: path.to_string(), category, diff: String::new(), summary: None }
}

#[test]
fn ignored_files_are_not_summarised() {
    let files = vec![
        change("a", FileCategory::Main),
        change("b", FileCategory::Ignored),
        change("c", FileCategory::Supporting),
    ];
    assert_eq!(pending_summaries(&files), vec![0, 2]);
    assert_eq!(FileCategory::Ignored.as_str(), "ignored");
    assert_eq!(FileCategory::Consequence.as_str(), "consequence");
}

#[test]
fn summaries_land_on_their_files() {
    let mut files = vec![
        change("a", FileCategory::Main),
        change("b", FileCategory::Ignored),
        change("c", FileCategory::Supporting),
    ];
    assert!(apply_summaries(&mut files, &vec![0, 2], vec!["sa".to_string(), "sc".to_string()]));
    assert_eq!(files[0].summary, Some("sa".to_string()));
    assert_eq!(files[1].summary, None);
    assert_eq!(files[2].summary, Some("sc".to_string()));
    assert_eq!(files[2].path, "c");
    assert!(!apply_summaries(&mut files, &vec![2, 0], vec!["x".to_string(), "y".to_string()]));
    assert!(!apply_summaries(&mut files, &vec![5], vec!["x".to_string()]));
    assert!(!apply_summaries(&mut files, &vec![0], vec![]));
    assert_eq!(files[0].summary, Some("sa".to_string()));
}

#[test]
fn menu_keys() {
    assert_eq!(menu_step(0, MenuKey::Up), MenuStep::Highlight(3));
    assert_eq!(menu_step(3, MenuKey::Down), MenuStep::Highlight(0));
    assert_eq!(menu_step(1, MenuKey::Down), MenuStep::Highlight(2));
    assert_eq!(menu_step(2, MenuKey::Enter), MenuStep::Chosen(FileCategory::Consequence));
    assert_eq!(menu_step(0, MenuKey::Char('4')), MenuStep::Chosen(FileCategory::Ignored));
    assert_eq!(menu_step(0, MenuKey::Char('2')), MenuStep::Chosen(FileCategory::Supporting));
    assert_eq!(menu_step(1, MenuKey::Char('9')), MenuStep::Highlight(1));
    assert_eq!(menu_step(1, MenuKey::Esc), MenuStep::Aborted);
    assert_eq!(menu_step(1, MenuKey::Other), MenuStep::Highlight(1));
    assert_eq!(entry_label(0), "1) Main purpose");
}
