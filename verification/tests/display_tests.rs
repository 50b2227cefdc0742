use tui_dotfile_manager::diff::{DiffLine, DiffLineTag, DiffResult};
use tui_dotfile_manager::display::{
    backup_item, backup_preview_lines, diff_spans, diff_title, help_spans, help_title, log_scroll,
    no_selection_lines, selected_backup, SpanKind, TextSpan,
};
use tui_dotfile_manager::restore::BackupEntry;
use tui_dotfile_manager::tui::{App, AppMode};

fn texts(spans: &[TextSpan]) -> Vec<String> {
    spans.iter().map(|s| s.text.clone()).collect()
}

fn entry() -> BackupEntry {
    BackupEntry {
        original_name: ".bashrc".to_string(),
        timestamp: 0,
        backup_path: "/backups/.bashrc_20241114_143052".to_string(),
        target_path: "/home/.bashrc".to_string(),
        file_size: 1536,
    }
}

#[test]
fn sync_help_lists_the_keys_of_sync_mode() {
    let app = App::new(vec!["work".to_string()]);
    let spans = help_spans(&app);
    assert_eq!(
        texts(&spans),
        vec!["  (q) ", "Quit", "  (j/k) ", "Navigate", "  (s) ", "Sync", "  (d) ", "Dry Run", "  (r) ", "Restore Mode"]
    );
    assert_eq!(spans[0].kind, SpanKind::Key);
    assert_eq!(spans[1].kind, SpanKind::Plain);
    assert_eq!(help_title(AppMode::Sync), " Help ");
}

#[test]
fn busy_help_asks_to_wait() {
    let mut app = App::new(vec!["work".to_string()]);
    app.sync_in_progress = true;
    let spans = help_spans(&app);
    assert_eq!(texts(&spans), vec!["SYNC IN PROGRESS...", "Please wait."]);
    assert_eq!(spans[0].kind, SpanKind::Busy);
    app.sync_in_progress = false;
    app.mode = AppMode::Restore;
    app.restore_in_progress = true;
    assert_eq!(texts(&help_spans(&app)), vec!["RESTORE IN PROGRESS...", "Please wait."]);
    app.restore_in_progress = false;
    assert_eq!(
        texts(&help_spans(&app)),
        vec!["  (r) ", "Restore", "  (d) ", "Dry Run", "  (Del) ", "Delete", "  (b) ", "Back"]
    );
    assert_eq!(help_title(AppMode::Restore), " Help - Restore Mode ");
}

#[test]
fn log_is_scrolled_to_its_newest_lines() {
    assert_eq!(log_scroll(10, 5), 7);
    assert_eq!(log_scroll(3, 5), 0);
    assert_eq!(log_scroll(3, 2), 3);
    // The lines scrolled past and the lines shown make up the whole log.
    assert_eq!(log_scroll(100, 12) as usize + (12 - 2), 100);
}

#[test]
fn backup_lines_show_name_time_and_size() {
    let b = entry();
    assert_eq!(backup_item(&b, "2024-11-14 14:30:52"), ".bashrc - 2024-11-14 14:30:52");
    let lines = backup_preview_lines(&b, "2024-11-14 14:30:52", Some(vec!["export A=1".to_string()]));
    assert_eq!(
        lines,
        vec![
            "Original: .bashrc",
            "Target: /home/.bashrc",
            "Timestamp: 2024-11-14 14:30:52",
            "Size: 1.5 KB",
            "",
            "Content Preview:",
            "export A=1",
        ]
    );
    let unreadable = backup_preview_lines(&b, "t", None);
    assert_eq!(unreadable.last().unwrap(), "[Binary file or read error]");
    assert_eq!(unreadable.len(), 7);
    assert_eq!(no_selection_lines(), vec!["No backup selected"]);
}

#[test]
fn selection_outside_the_list_selects_nothing() {
    let mut app = App::new(vec![]);
    app.backups = vec![entry()];
    app.selected_backup = Some(0);
    assert_eq!(selected_backup(&app).map(|b| b.original_name.clone()), Some(".bashrc".to_string()));
    app.selected_backup = Some(1);
    assert!(selected_backup(&app).is_none());
    app.selected_backup = None;
    assert!(selected_backup(&app).is_none());
}

#[test]
fn diff_lines_are_marked_by_change() {
    let d = DiffResult::FileDiff {
        source: "/repo/.vimrc".to_string(),
        target: "/home/.vimrc".to_string(),
        diff_lines: vec![
            DiffLine { tag: DiffLineTag::Equal, content: "set nu".to_string() },
            DiffLine { tag: DiffLineTag::Delete, content: "set list".to_string() },
            DiffLine { tag: DiffLineTag::Insert, content: "set hls".to_string() },
        ],
    };
    let spans = diff_spans(&d);
    assert_eq!(texts(&spans), vec![" set nu", "-set list", "+set hls"]);
    assert_eq!(spans[0].kind, SpanKind::Plain);
    assert_eq!(spans[1].kind, SpanKind::Removed);
    assert_eq!(spans[2].kind, SpanKind::Added);
    assert_eq!(diff_title(&d), " /home/.vimrc (+1 -1 lines) ");
    let new = DiffResult::NewFile {
        source: "/repo/a".to_string(),
        target: "/home/a".to_string(),
        content_preview: vec!["x".to_string()],
    };
    assert_eq!(texts(&diff_spans(&new)), vec!["+x"]);
    let bin = DiffResult::BinaryFile { source: "/repo/b".to_string(), target: "/home/b".to_string() };
    assert_eq!(texts(&diff_spans(&bin)), vec!["Binary file"]);
}
