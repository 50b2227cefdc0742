use tui_dotfile_manager::diff::DiffResult;
use tui_dotfile_manager::restore::BackupEntry;
use tui_dotfile_manager::tui::{App, AppMode, Command, Key, WorkerMessage};

fn app(names: &[&str]) -> App {
    App::new(names.iter().map(|s| s.to_string()).collect())
}

fn backup(name: &str) -> BackupEntry {
    BackupEntry {
        original_name: name.to_string(),
        timestamp: 1,
        backup_path: format!("/b/{}", name),
        target_path: format!("/h/{}", name),
        file_size: 1,
    }
}

#[test]
fn starts_on_first_profile() {
    let a = app(&["a", "b"]);
    assert_eq!(a.selected_profile, Some(0));
    assert_eq!(a.logs.len(), 3);
    assert_eq!(a.mode, AppMode::Sync);
    assert_eq!(app(&[]).selected_profile, None);
}

#[test]
fn selection_wraps_around() {
    let mut a = app(&["a", "b", "c"]);
    a.on_key(Key::Char('k'));
    assert_eq!(a.selected_profile, Some(2));
    a.on_key(Key::Down);
    assert_eq!(a.selected_profile, Some(0));
    a.on_key(Key::Char('j'));
    a.on_key(Key::Up);
    assert_eq!(a.selected_profile, Some(0));
}

#[test]
fn sync_keys_start_work_and_block_input() {
    let mut a = app(&["a", "b"]);
    a.on_key(Key::Down);
    match a.on_key(Key::Char('d')) {
        Command::Sync { profile, dry_run } => {
            assert_eq!(profile, "b");
            assert!(dry_run);
        }
        _ => panic!("expected a sync"),
    }
    assert!(a.sync_in_progress);
    assert_eq!(a.logs.last().unwrap(), "Starting Dry Run...");
    assert!(matches!(a.on_key(Key::Char('q')), Command::Nothing));
    assert!(!a.should_quit);
    a.on_log(WorkerMessage::SyncComplete);
    a.on_key(Key::Esc);
    assert!(a.should_quit);
}

#[test]
fn restore_mode_lists_and_restores() {
    let mut a = app(&["a"]);
    assert!(matches!(a.on_key(Key::Char('r')), Command::ListBackups));
    assert_eq!(a.mode, AppMode::Restore);
    a.on_log(WorkerMessage::BackupsListed(vec![backup("x"), backup("y")]));
    assert_eq!(a.selected_backup, Some(0));
    assert_eq!(a.logs.last().unwrap(), "Found 2 backup(s)");
    a.on_key(Key::Char('j'));
    match a.on_key(Key::Enter) {
        Command::Restore { backup, dry_run } => {
            assert_eq!(backup.original_name, "y");
            assert!(!dry_run);
        }
        _ => panic!("expected a restore"),
    }
    assert!(matches!(a.on_log(WorkerMessage::RestoreComplete), Command::ListBackups));
    assert!(!a.restore_in_progress);
    match a.on_key(Key::Delete) {
        Command::DeleteBackup { backup } => assert_eq!(backup.backup_path, "/b/y"),
        _ => panic!("expected a delete"),
    }
    a.on_key(Key::Char('b'));
    assert_eq!(a.mode, AppMode::Sync);
    assert!(a.backups.is_empty());
    assert_eq!(a.selected_backup, None);
}

#[test]
fn no_selection_is_reported() {
    let mut a = app(&[]);
    assert!(matches!(a.on_key(Key::Char('s')), Command::Nothing));
    assert_eq!(a.logs.last().unwrap(), "[ERROR] No profile selected.");
    a.on_key(Key::Char('r'));
    a.on_key(Key::Char('d'));
    assert_eq!(a.logs.last().unwrap(), "[ERROR] No backup selected.");
}

#[test]
fn diff_preview_scrolls_and_switches() {
    let mut a = app(&["p"]);
    match a.on_key(Key::Char('p')) {
        Command::PreviewDiff { profile } => assert_eq!(profile, "p"),
        _ => panic!("expected a preview"),
    }
    assert_eq!(a.mode, AppMode::DiffPreview);
    a.on_key(Key::Up);
    assert_eq!(a.diff_scroll, 0);
    a.on_key(Key::Down);
    a.on_key(Key::Down);
    assert_eq!(a.diff_scroll, 2);
    let d = |t: &str| DiffResult::BinaryFile { source: "s".to_string(), target: t.to_string() };
    a.on_log(WorkerMessage::DiffGenerated(vec![d("1"), d("2")]));
    assert_eq!(a.logs.last().unwrap(), "Generated 2 diff(s)");
    a.on_key(Key::Char('N'));
    assert_eq!(a.selected_diff, Some(1));
    assert_eq!(a.diff_scroll, 0);
    a.on_key(Key::Char('q'));
    assert_eq!(a.mode, AppMode::Sync);
    assert!(a.diffs.is_empty());
}

#[test]
fn log_is_rotated_at_its_limit() {
    let mut a = app(&["p"]);
    for i in 0..1200 {
        a.on_log(WorkerMessage::Log(format!("line {}", i)));
    }
    assert_eq!(a.logs.len(), 1000);
    assert_eq!(a.logs[0], "line 200");
    assert_eq!(a.logs.last().unwrap(), "line 1199");
}

#[test]
fn reload_keeps_or_moves_the_selection() {
    let mut a = app(&["a", "b"]);
    a.on_key(Key::Down);
    assert!(a.begin_reload());
    a.finish_reload(Ok(vec!["b".to_string(), "c".to_string()]));
    assert_eq!(a.selected_profile, Some(0));
    assert_eq!(a.logs.last().unwrap(), "[SUCCESS] Configuration reloaded. 2 profile(s) available.");
    a.on_key(Key::Down);
    a.finish_reload(Ok(vec!["x".to_string()]));
    assert_eq!(a.selected_profile, Some(0));
    assert!(a.logs.iter().any(|l| l == "[INFO] Profile 'c' no longer exists. Switched to 'x'."));
    a.finish_reload(Err("bad".to_string()));
    assert_eq!(a.logs.last().unwrap(), "[INFO] Using previous configuration.");
    a.on_key(Key::Char('s'));
    assert!(!a.begin_reload());
    assert_eq!(a.logs.last().unwrap(), "[WARN] Cannot reload config during sync.");
}

use tui_dotfile_manager::tui::{
    messages_after_delete, messages_after_listing, messages_after_preview, messages_after_restore,
    messages_after_sync,
};
use tui_dotfile_manager::ManagerError;

fn log_text(m: &WorkerMessage) -> Option<&str> {
    match m {
        WorkerMessage::Log(l) => Some(l.as_str()),
        _ => None,
    }
}

#[test]
fn worker_outcomes_become_messages() {
    let m = messages_after_sync(Ok(vec!["one".to_string(), "two".to_string()]));
    assert_eq!(m.len(), 3);
    assert_eq!(log_text(&m[0]), Some("one"));
    assert_eq!(log_text(&m[1]), Some("two"));
    assert!(matches!(m[2], WorkerMessage::SyncComplete));
    let m = messages_after_restore(Err(ManagerError::Io("denied".to_string())));
    assert_eq!(log_text(&m[0]), Some("[FATAL ERROR] File I/O error: denied"));
    assert!(matches!(m[1], WorkerMessage::RestoreComplete));
    let m = messages_after_listing(Err(ManagerError::Io("gone".to_string())));
    assert_eq!(log_text(&m[0]), Some("[ERROR] Failed to list backups: File I/O error: gone"));
    assert!(matches!(&m[1], WorkerMessage::BackupsListed(b) if b.is_empty()));
    let m = messages_after_listing(Ok(vec![backup("x")]));
    assert!(matches!(&m[0], WorkerMessage::BackupsListed(b) if b.len() == 1));
    let m = messages_after_delete(Ok(()), Err(ManagerError::Io("e".to_string())));
    assert_eq!(log_text(&m[0]), Some("[SUCCESS] Backup deleted"));
    assert_eq!(log_text(&m[1]), Some("[ERROR] Failed to refresh backup list: File I/O error: e"));
    let m = messages_after_preview(Err(ManagerError::ProfileNotFound("p".to_string())));
    assert_eq!(log_text(&m[0]), Some("[ERROR] Failed to generate diff: Profile not found in configuration: p"));
    assert!(matches!(&m[1], WorkerMessage::DiffGenerated(d) if d.is_empty()));
}
