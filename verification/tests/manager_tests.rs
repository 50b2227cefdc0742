use tui_dotfile_manager::config::{Config, Link, Profile, Settings};
use tui_dotfile_manager::diff::{DiffObservation, DiffResult};
use tui_dotfile_manager::manager::{
    pick_restore_target, sort_newest_first, BackupFile, FsAction, LinkObservation, RestoreObservation,
    SyncJob, TargetKind,
};
use tui_dotfile_manager::restore::BackupEntry;
use tui_dotfile_manager::{DotfileManager, ManagerError};

fn link(source: &str, target: &str) -> Link {
    Link { source: source.to_string(), target: target.to_string() }
}

fn config(repo: &str, backups: &str, profiles: Vec<(&str, Vec<Link>)>) -> Config {
    Config {
        settings: Settings { repo_dir: repo.to_string(), backup_dir: backups.to_string() },
        profiles: profiles
            .into_iter()
            .map(|(n, links)| (n.to_string(), Profile { links }))
            .collect(),
    }
}

fn manager(profiles: Vec<(&str, Vec<Link>)>) -> DotfileManager {
    let c = config("/repo", "/backups", profiles);
    match DotfileManager::new(c, "/cfg/config.toml") {
        Ok(m) => m,
        Err(e) => panic!("{}", e.message()),
    }
}

fn job(m: &DotfileManager, source: &str, target: &str) -> SyncJob {
    let c = config("/repo", "/backups", vec![("p", vec![link(source, target)])]);
    let _ = c;
    SyncJob {
        source: DotfileManager::resolve_path(&m.repo_path, source),
        target: DotfileManager::resolve_path(&m.config_dir, target),
        link_source: source.to_string(),
    }
}

fn obs(source_exists: bool, target_exists: bool, link: Option<&str>, parent_exists: bool) -> LinkObservation {
    LinkObservation {
        source_exists,
        target_exists,
        target_link: link.map(|s| s.to_string()),
        parent_exists,
    }
}

const STAMP: &str = "20241114_143052.123456";

#[test]
fn test_get_profiles() {
    let m = manager(vec![
        ("work", vec![link(".bashrc", "~/.bashrc")]),
        ("personal", vec![link(".bashrc", "~/.bashrc")]),
        ("test", vec![link(".bashrc", "~/.bashrc")]),
    ]);
    assert_eq!(m.get_profiles(), vec!["personal", "test", "work"]);
}

#[test]
fn test_cli_list_profiles() {
    let m = manager(vec![
        ("gamma", vec![link(".zshrc", "~/.zshrc")]),
        ("alpha", vec![link(".bashrc", "~/.bashrc")]),
        ("beta", vec![link(".vimrc", "~/.vimrc")]),
    ]);
    assert_eq!(m.get_profiles(), vec!["alpha", "beta", "gamma"]);
}

#[test]
fn test_empty_profile_validation() {
    let c = config("dotfiles", "backups", vec![("empty", vec![])]);
    let result = DotfileManager::new(c, "config.toml");
    assert!(result.is_err());
    if let Err(e) = result {
        assert!(e.message().contains("no links"));
    }
}

#[test]
fn validation_messages() {
    let c = config("d", "b", vec![]);
    assert_eq!(c.validate(), Err("Configuration must contain at least one profile".to_string()));
    let c = config("d", "b", vec![("", vec![link("a", "b")])]);
    assert_eq!(c.validate(), Err("Profile names cannot be empty".to_string()));
    let c = config("d", "b", vec![("ok", vec![link("a", "b")]), ("bad", vec![])]);
    assert_eq!(c.validate(), Err("Profile 'bad' has no links defined".to_string()));
    let c = config("d", "b", vec![("ok", vec![link("a", "b")])]);
    assert_eq!(c.validate(), Ok(()));
}

#[test]
fn test_profile_not_found() {
    let m = manager(vec![("test", vec![link(".bashrc", "~/.bashrc")])]);
    let result = m.sync_jobs("nonexistent");
    assert!(result.is_err());
    if let Err(e) = result {
        assert!(e.message().contains("Profile not found"));
    }
}

#[test]
fn test_cli_invalid_profile_error() {
    let m = manager(vec![("valid", vec![link(".bashrc", "~/.bashrc")])]);
    let result = m.sync_jobs("invalid_profile");
    assert!(result.is_err());
    if let Err(e) = result {
        let err_msg = e.message();
        assert!(err_msg.contains("Profile not found"));
        assert!(err_msg.contains("invalid_profile"));
    }
}

#[test]
fn paths_resolve_against_their_bases() {
    let c = config("dotfiles", "/abs/backups", vec![("p", vec![link("a/b", "/home/u/.b"), link("c", "rel/c")])]);
    let m = DotfileManager::new(c, "/cfg/dir/config.toml").ok().unwrap();
    assert_eq!(m.config_dir, "/cfg/dir");
    assert_eq!(m.repo_path, "/cfg/dir/dotfiles");
    assert_eq!(m.backup_path, "/abs/backups");
    let jobs = m.sync_jobs("p").ok().unwrap();
    assert_eq!(jobs.len(), 2);
    assert_eq!(jobs[0].source, "/cfg/dir/dotfiles/a/b");
    assert_eq!(jobs[0].target, "/home/u/.b");
    assert_eq!(jobs[1].target, "/cfg/dir/rel/c");
    let m2 = DotfileManager::new(config("r", "b", vec![("p", vec![link("a", "b")])]), "config.toml")
        .ok()
        .unwrap();
    assert_eq!(m2.config_dir, "");
    assert_eq!(m2.repo_path, "r");
}

#[test]
fn tilde_expands_to_the_home_directory() {
    let r = DotfileManager::resolve_path("/base", "~/.bashrc");
    assert!(r.ends_with("/.bashrc"));
    assert!(r == "/base/~/.bashrc" || !r.contains('~'));
    assert_eq!(DotfileManager::resolve_path("/base", "~user/x"), "/base/~user/x");
}

#[test]
fn test_missing_source_file() {
    let m = manager(vec![("test", vec![link("missing.txt", "/home/.missing.txt")])]);
    let j = job(&m, "missing.txt", "/home/.missing.txt");
    let plan = m.plan_link(&j, &obs(false, false, None, true), false, STAMP).ok().unwrap();
    assert!(plan.logs.iter().any(|s| s.contains("[WARN]") && s.contains("does not exist")));
    assert!(plan.actions.is_empty());
}

#[test]
fn test_symlink_already_correct() {
    let m = manager(vec![("test", vec![link(".bashrc", "/home/.bashrc")])]);
    let j = job(&m, ".bashrc", "/home/.bashrc");
    let plan = m.plan_link(&j, &obs(true, true, Some("/repo/.bashrc"), true), false, STAMP).ok().unwrap();
    assert!(plan.logs.iter().any(|s| s.contains("[SKIP]") && s.contains("already correct")));
    assert!(plan.actions.is_empty());
}

#[test]
fn existing_file_is_moved_to_backups_then_linked() {
    let m = manager(vec![("test", vec![link(".bashrc", "/home/.bashrc")])]);
    let j = job(&m, ".bashrc", "/home/.bashrc");
    let plan = m.plan_link(&j, &obs(true, true, None, true), false, STAMP).ok().unwrap();
    assert_eq!(
        plan.logs,
        vec![
            "Processing: .bashrc -> /home/.bashrc".to_string(),
            format!("  [BACKUP] Moving existing file: /home/.bashrc -> /backups/.bashrc_{}", STAMP),
            "  [LINK] Creating symlink: /repo/.bashrc -> /home/.bashrc".to_string(),
        ]
    );
    assert_eq!(plan.actions.len(), 2);
    match &plan.actions[0] {
        FsAction::RenameQuietly { from, to } => {
            assert_eq!(from, "/home/.bashrc");
            assert_eq!(to, &format!("/backups/.bashrc_{}", STAMP));
        }
        _ => panic!("expected a rename"),
    }
    match &plan.actions[1] {
        FsAction::CreateSymlink { source, target } => {
            assert_eq!(source, "/repo/.bashrc");
            assert_eq!(target, "/home/.bashrc");
        }
        _ => panic!("expected a symlink"),
    }
}

#[test]
fn dry_run_logs_the_same_and_does_nothing() {
    let m = manager(vec![("test", vec![link(".bashrc", "/home/.bashrc")])]);
    let j = job(&m, ".bashrc", "/home/.bashrc");
    let o = obs(true, true, None, true);
    let dry = m.plan_link(&j, &o, true, STAMP).ok().unwrap();
    let real = m.plan_link(&j, &o, false, STAMP).ok().unwrap();
    assert_eq!(dry.logs, real.logs);
    assert!(dry.actions.is_empty());
    assert!(dry.logs.iter().any(|s| s.contains("BACKUP") && s.contains("Moving existing file")));
    assert!(dry.logs.iter().any(|s| s.contains("LINK") && s.contains("Creating symlink")));
    assert_eq!(DotfileManager::sync_header("test", true), "--- DRY RUN (No changes will be made) ---");
    assert_eq!(DotfileManager::sync_header("test", false), "--- Executing Sync for profile: test ---");
    assert_eq!(m.backup_dir_log(), "Backup directory ensured: \"/backups\"");
    assert_eq!(DotfileManager::sync_footer(), "--- Sync Finished ---");
}

#[test]
fn wrong_link_is_removed_and_missing_parent_made() {
    let m = manager(vec![("test", vec![link(".vimrc", "/home/new/.vimrc")])]);
    let j = job(&m, ".vimrc", "/home/new/.vimrc");
    let plan = m.plan_link(&j, &obs(true, true, Some("/elsewhere"), false), false, STAMP).ok().unwrap();
    assert!(plan.logs[1].contains("Removing incorrect symlink"));
    assert_eq!(plan.actions.len(), 3);
    assert!(matches!(&plan.actions[0], FsAction::RemoveFileQuietly { path } if path == "/home/new/.vimrc"));
    assert!(matches!(&plan.actions[1], FsAction::CreateDirAll { path } if path == "/home/new"));
}

#[test]
fn target_without_file_name_is_an_error() {
    let m = manager(vec![("test", vec![link(".bashrc", "/")])]);
    let j = job(&m, ".bashrc", "/");
    match m.plan_link(&j, &obs(true, true, None, true), false, STAMP) {
        Err(ManagerError::Io(msg)) => assert_eq!(msg, "Target path has no filename: /"),
        _ => panic!("expected an error"),
    }
}

fn entry(name: &str, ts: i64) -> BackupEntry {
    BackupEntry {
        original_name: name.to_string(),
        timestamp: ts,
        backup_path: format!("/backups/{}_{}", name, ts),
        target_path: format!("/home/{}", name),
        file_size: 3,
    }
}

#[test]
fn restore_backs_up_copies_and_cleans_up() {
    let m = manager(vec![("test", vec![link(".bashrc", "/home/.bashrc")])]);
    let b = entry(".bashrc", 5);
    let o = RestoreObservation { backup_exists: true, target: TargetKind::Other, parent_exists: true };
    let plan = m.restore_backup(&b, &o, false, STAMP).ok().unwrap();
    assert!(plan.logs.iter().any(|s| s.contains("Restoring backup")));
    assert!(plan.logs.iter().any(|s| s.contains("RESTORE")));
    assert_eq!(plan.actions.len(), 3);
    assert!(matches!(&plan.actions[0], FsAction::Rename { from, to }
        if from == "/home/.bashrc" && to == &format!("/backups/.bashrc_{}", STAMP)));
    assert!(matches!(&plan.actions[1], FsAction::Copy { from, to } if from == "/backups/.bashrc_5" && to == "/home/.bashrc"));
    assert!(matches!(&plan.actions[2], FsAction::RemoveFile { path } if path == "/backups/.bashrc_5"));
    let dry = m.restore_backup(&b, &o, true, STAMP).ok().unwrap();
    assert!(dry.logs.iter().any(|s| s.contains("DRY RUN")));
    assert!(dry.actions.is_empty());
    let gone = RestoreObservation { backup_exists: false, target: TargetKind::Symlink, parent_exists: true };
    let plan = m.restore_backup(&b, &gone, false, STAMP).ok().unwrap();
    assert_eq!(plan.logs.last().unwrap(), "[ERROR] Backup file no longer exists");
    assert!(plan.actions.is_empty());
    let link_there = RestoreObservation { backup_exists: true, target: TargetKind::Symlink, parent_exists: false };
    let plan = m.restore_backup(&b, &link_there, false, STAMP).ok().unwrap();
    assert!(matches!(&plan.actions[0], FsAction::RemoveFile { path } if path == "/home/.bashrc"));
    assert!(matches!(&plan.actions[1], FsAction::CreateDirAll { path } if path == "/home"));
}

#[test]
fn backups_sort_newest_first_and_stably() {
    let sorted = sort_newest_first(vec![entry("a", 1), entry("b", 3), entry("c", 2), entry("d", 3)]);
    let names: Vec<&str> = sorted.iter().map(|e| e.original_name.as_str()).collect();
    assert_eq!(names, vec!["b", "d", "c", "a"]);
}

#[test]
fn test_list_backups_empty() {
    let m = manager(vec![("test", vec![link(".bashrc", "~/.bashrc")])]);
    assert_eq!(m.list_backups(&Vec::new()).len(), 0);
}

#[test]
fn list_backups_reads_names_and_targets() {
    let m = manager(vec![("test", vec![link(".bashrc", "/home/u/.bashrc"), link(".vimrc", "/home/u/.vimrc")])]);
    let files = vec![
        BackupFile { path: "/backups/.vimrc_20240101_000000.000000".to_string(), name: ".vimrc_20240101_000000.000000".to_string(), size: 7 },
        BackupFile { path: "/backups/junk".to_string(), name: "junk".to_string(), size: 1 },
        BackupFile { path: "/backups/.bashrc_20240301_000000.000000".to_string(), name: ".bashrc_20240301_000000.000000".to_string(), size: 9 },
    ];
    let list = m.list_backups(&files);
    assert_eq!(list.len(), 2);
    assert_eq!(list[0].original_name, ".bashrc");
    assert_eq!(list[0].target_path, "/home/u/.bashrc");
    assert_eq!(list[0].file_size, 9);
    assert_eq!(list[1].original_name, ".vimrc");
    assert_eq!(list[1].target_path, "/home/u/.vimrc");
    assert_eq!(
        pick_restore_target(&vec!["/x/a".to_string(), "/y/b".to_string()], "b", "/home/b".to_string()),
        "/y/b"
    );
    assert_eq!(pick_restore_target(&vec!["/x/a".to_string()], "c", "/home/c".to_string()), "/home/c");
}

#[test]
fn test_diff_preview() {
    let m = manager(vec![("test", vec![link(".bashrc", "/home/.bashrc"), link(".vimrc", "/home/.vimrc")])]);
    let jobs = m.preview_diff("test").ok().unwrap();
    assert_eq!(jobs.len(), 2);
    let bashrc = DiffObservation {
        target_exists: true,
        target_link: None,
        source_text: Ok("# New bashrc\necho 'Hello from new bashrc'\n".to_string()),
        source_bytes: None,
        target_text: Ok("# Old bashrc\necho 'Hello from old bashrc'\n".to_string()),
        target_bytes: None,
    };
    let vimrc = DiffObservation {
        target_exists: false,
        target_link: None,
        source_text: Ok("set number\nset tabstop=4\n".to_string()),
        source_bytes: None,
        target_text: Err("missing".to_string()),
        target_bytes: None,
    };
    let diffs = DotfileManager::preview_results(&jobs, &vec![bashrc, vimrc]);
    assert_eq!(diffs.len(), 2);
    assert_eq!(diffs[0].target_path(), "/home/.bashrc");
    assert_eq!(diffs[1].target_path(), "/home/.vimrc");
    match &diffs[0] {
        DiffResult::FileDiff { diff_lines, .. } => assert!(!diff_lines.is_empty()),
        _ => panic!("Expected FileDiff for .bashrc"),
    }
    match &diffs[1] {
        DiffResult::NewFile { content_preview, .. } => {
            assert!(!content_preview.is_empty());
            assert!(content_preview.iter().any(|l| l.contains("set number")));
        }
        _ => panic!("Expected NewFile for .vimrc"),
    }
    assert!(m.preview_diff("nope").is_err());
}

#[test]
fn error_messages() {
    assert_eq!(
        ManagerError::ConfigNotFound("nonexistent.toml".to_string()).message(),
        "Configuration file not found at: nonexistent.toml"
    );
    assert_eq!(ManagerError::ConfigParse("x".to_string()).message(), "Failed to parse configuration file: x");
    assert_eq!(ManagerError::Io("y".to_string()).message(), "File I/O error: y");
    assert_eq!(ManagerError::ConfigValidation("z".to_string()).message(), "Invalid configuration: z");
}

#[test]
fn backups_from_what_the_names_gave() {
    let m = manager(vec![("test", vec![link(".bashrc", "/home/u/.bashrc"), link(".vimrc", "/home/u/.vimrc")])]);
    let files = vec![
        BackupFile { path: "/backups/a".to_string(), name: "a".to_string(), size: 1 },
        BackupFile { path: "/backups/b".to_string(), name: "b".to_string(), size: 2 },
        BackupFile { path: "/backups/c".to_string(), name: "c".to_string(), size: 3 },
    ];
    let parsed = vec![Some((".vimrc".to_string(), 10)), None, Some((".bashrc".to_string(), 20))];
    let entries = m.entries_from_parsed(&files, &parsed);
    assert_eq!(entries.len(), 2);
    assert_eq!(entries[0].original_name, ".vimrc");
    assert_eq!(entries[0].timestamp, 10);
    assert_eq!(entries[0].backup_path, "/backups/a");
    assert_eq!(entries[0].target_path, "/home/u/.vimrc");
    assert_eq!(entries[1].file_size, 3);
    let sorted = m.backups_from_parsed(&files, &parsed);
    assert_eq!(sorted[0].timestamp, 20);
    assert_eq!(sorted[1].timestamp, 10);
}
