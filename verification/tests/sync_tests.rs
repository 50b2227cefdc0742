use tui_dotfile_manager::config::{Config, Link, Profile, Settings};
use tui_dotfile_manager::manager::{FsAction, LinkObservation};
use tui_dotfile_manager::sync::{SyncPhase, SyncRequest, SyncRun};
use tui_dotfile_manager::{DotfileManager, ManagerError};

const STAMP: &str = "20241114_143052.123456";

fn manager(profiles: Vec<(&str, Vec<(&str, &str)>)>) -> DotfileManager {
    let config = Config {
        settings: Settings { repo_dir: "/repo".to_string(), backup_dir: "/backups".to_string() },
        profiles: profiles
            .into_iter()
            .map(|(n, links)| {
                let links = links
                    .into_iter()
                    .map(|(s, t)| Link { source: s.to_string(), target: t.to_string() })
                    .collect();
                (n.to_string(), Profile { links })
            })
            .collect(),
    };
    match DotfileManager::new(config, "/cfg/config.toml") {
        Ok(m) => m,
        Err(e) => panic!("{}", e.message()),
    }
}

fn obs(target_exists: bool, link: Option<&str>) -> LinkObservation {
    LinkObservation {
        source_exists: true,
        target_exists,
        target_link: link.map(|s| s.to_string()),
        parent_exists: true,
    }
}

fn expect_observe(req: SyncRequest, source: &str, target: &str) {
    match req {
        SyncRequest::Observe { job } => {
            assert_eq!(job.source, source);
            assert_eq!(job.target, target);
        }
        _ => panic!("expected a request to observe a link"),
    }
}

fn expect_finished(req: SyncRequest) -> Vec<String> {
    match req {
        SyncRequest::Finished { logs } => logs,
        _ => panic!("expected the sync to finish"),
    }
}

#[test]
fn dry_run_sync_only_observes() {
    let m = manager(vec![("test", vec![(".bashrc", "/home/.bashrc")])]);
    let (mut run, req) = SyncRun::start(&m, "test", true);
    assert_eq!(run.phase, SyncPhase::Observing);
    expect_observe(req, "/repo/.bashrc", "/home/.bashrc");
    let req = run.observed(&m, &obs(true, None), STAMP);
    let logs = expect_finished(req);
    assert_eq!(
        logs,
        vec![
            "--- DRY RUN (No changes will be made) ---".to_string(),
            "Processing: .bashrc -> /home/.bashrc".to_string(),
            format!("  [BACKUP] Moving existing file: /home/.bashrc -> /backups/.bashrc_{}", STAMP),
            "  [LINK] Creating symlink: /repo/.bashrc -> /home/.bashrc".to_string(),
            "--- Sync Finished ---".to_string(),
        ]
    );
    assert_eq!(run.phase, SyncPhase::Over);
}

#[test]
fn real_sync_makes_the_backup_dir_then_links() {
    let m = manager(vec![("test", vec![(".bashrc", "/home/.bashrc"), (".vimrc", "/home/.vimrc")])]);
    let (mut run, req) = SyncRun::start(&m, "test", false);
    match req {
        SyncRequest::EnsureDir { path } => assert_eq!(path, "/backups"),
        _ => panic!("expected the backup directory first"),
    }
    let req = run.completed(&m, Ok(()));
    expect_observe(req, "/repo/.bashrc", "/home/.bashrc");
    let req = run.observed(&m, &obs(false, None), STAMP);
    match req {
        SyncRequest::Perform { actions } => {
            assert_eq!(actions.len(), 1);
            match &actions[0] {
                FsAction::CreateSymlink { source, target } => {
                    assert_eq!(source, "/repo/.bashrc");
                    assert_eq!(target, "/home/.bashrc");
                }
                _ => panic!("expected a symlink"),
            }
        }
        _ => panic!("expected actions"),
    }
    let req = run.completed(&m, Ok(()));
    expect_observe(req, "/repo/.vimrc", "/home/.vimrc");
    let req = run.observed(&m, &obs(true, Some("/repo/.vimrc")), STAMP);
    let logs = expect_finished(req);
    assert_eq!(logs[0], "--- Executing Sync for profile: test ---");
    assert_eq!(logs[1], "Backup directory ensured: \"/backups\"");
    assert!(logs.iter().any(|s| s.contains("[SKIP]") && s.contains("already correct")));
    assert_eq!(logs.last().unwrap(), "--- Sync Finished ---");
}

#[test]
fn sync_of_unknown_profile_fails() {
    let m = manager(vec![("test", vec![(".bashrc", "/home/.bashrc")])]);
    let (_, req) = SyncRun::start(&m, "nope", true);
    match req {
        SyncRequest::Failed { error: ManagerError::ProfileNotFound(n) } => assert_eq!(n, "nope"),
        _ => panic!("expected a missing profile"),
    }
    let (mut run, _) = SyncRun::start(&m, "nope", false);
    match run.completed(&m, Ok(())) {
        SyncRequest::Failed { error: ManagerError::ProfileNotFound(n) } => assert_eq!(n, "nope"),
        _ => panic!("expected a missing profile"),
    }
}

#[test]
fn failed_file_operation_fails_the_sync() {
    let m = manager(vec![("test", vec![(".bashrc", "/home/.bashrc")])]);
    let (mut run, _) = SyncRun::start(&m, "test", false);
    match run.completed(&m, Err("permission denied".to_string())) {
        SyncRequest::Failed { error: ManagerError::Io(msg) } => assert_eq!(msg, "permission denied"),
        _ => panic!("expected a file error"),
    }
    assert_eq!(run.phase, SyncPhase::Over);
}

#[test]
fn correct_link_is_skipped_and_the_run_ends() {
    let m = manager(vec![("test", vec![(".bashrc", "/home/.bashrc")])]);
    let (mut run, req) = SyncRun::start(&m, "test", true);
    expect_observe(req, "/repo/.bashrc", "/home/.bashrc");
    let req = run.observed(&m, &obs(true, Some("/repo/.bashrc")), STAMP);
    let logs = expect_finished(req);
    assert_eq!(logs.len(), 4);
    assert_eq!(run.next, 1);
}
