//! Whole workflows run against a file system kept in memory: the library
//! decides, and these tests carry out its requests as a terminal program does.

use std::collections::{BTreeMap, BTreeSet};

use tui_dotfile_manager::config::{Config, Link, Profile, Settings};
use tui_dotfile_manager::diff::{DiffObservation, DiffResult};
use tui_dotfile_manager::manager::{BackupFile, FsAction, LinkObservation, RestoreObservation, SyncJob, TargetKind};
use tui_dotfile_manager::restore::BackupEntry;
use tui_dotfile_manager::sync::{SyncRequest, SyncRun};
use tui_dotfile_manager::{DotfileManager, ManagerError};

const SYNC_STAMP: &str = "20241114_143052.123456";
const RESTORE_STAMP: &str = "20241114_150000.000001";

enum Node {
    File(Vec<u8>),
    Link(String),
}

struct MemFs {
    nodes: BTreeMap<String, Node>,
    dirs: BTreeSet<String>,
}

fn parent_of(p: &str) -> Option<String> {
    let i = p.rfind('/')?;
    if i == 0 {
        Some("/".to_string())
    } else {
        Some(p[..i].to_string())
    }
}

fn name_of(p: &str) -> String {
    p.rsplit('/').next().unwrap_or("").to_string()
}

impl MemFs {
    fn new() -> Self {
        let mut dirs = BTreeSet::new();
        dirs.insert("/".to_string());
        MemFs { nodes: BTreeMap::new(), dirs }
    }

    fn make_dirs(&mut self, p: &str) {
        let mut cur = Some(p.to_string());
        while let Some(d) = cur {
            if !self.dirs.insert(d.clone()) {
                break;
            }
            cur = parent_of(&d);
        }
    }

    fn write(&mut self, p: &str, bytes: &[u8]) {
        if let Some(d) = parent_of(p) {
            self.make_dirs(&d);
        }
        self.nodes.insert(p.to_string(), Node::File(bytes.to_vec()));
    }

    fn bytes(&self, p: &str) -> Option<&Vec<u8>> {
        let mut cur = p.to_string();
        for _ in 0..8 {
            match self.nodes.get(&cur)? {
                Node::File(b) => return Some(b),
                Node::Link(t) => cur = t.clone(),
            }
        }
        None
    }

    fn is_there(&self, p: &str) -> bool {
        self.dirs.contains(p) || self.bytes(p).is_some()
    }

    fn parent_exists(&self, p: &str) -> bool {
        match parent_of(p) {
            Some(d) => self.dirs.contains(&d),
            None => true,
        }
    }

    fn read_link(&self, p: &str) -> Option<String> {
        match self.nodes.get(p) {
            Some(Node::Link(t)) => Some(t.clone()),
            _ => None,
        }
    }

    fn is_symlink(&self, p: &str) -> bool {
        self.read_link(p).is_some()
    }

    fn read_text(&self, p: &str) -> Result<String, String> {
        match self.bytes(p) {
            Some(b) => String::from_utf8(b.clone()).map_err(|_| "stream did not contain valid UTF-8".to_string()),
            None => Err("No such file or directory".to_string()),
        }
    }

    fn take(&mut self, from: &str, to: &str) -> Result<(), String> {
        if !self.parent_exists(to) {
            return Err("No such file or directory".to_string());
        }
        let node = self.nodes.remove(from).ok_or("No such file or directory")?;
        self.nodes.insert(to.to_string(), node);
        Ok(())
    }

    fn perform(&mut self, actions: Vec<FsAction>) -> Result<(), String> {
        for action in actions {
            match action {
                FsAction::CreateDirAll { path } => self.make_dirs(&path),
                FsAction::RemoveFileQuietly { path } => {
                    self.nodes.remove(&path);
                }
                FsAction::RenameQuietly { from, to } => {
                    let _ = self.take(&from, &to);
                }
                FsAction::CreateSymlink { source, target } => {
                    if self.nodes.contains_key(&target) || !self.parent_exists(&target) {
                        return Err("cannot create the link".to_string());
                    }
                    self.nodes.insert(target, Node::Link(source));
                }
                FsAction::RemoveFile { path } => {
                    self.nodes.remove(&path).ok_or("No such file or directory")?;
                }
                FsAction::Rename { from, to } => self.take(&from, &to)?,
                FsAction::Copy { from, to } => {
                    let b = self.bytes(&from).ok_or("No such file or directory")?.clone();
                    if !self.parent_exists(&to) {
                        return Err("No such file or directory".to_string());
                    }
                    self.nodes.insert(to, Node::File(b));
                }
            }
        }
        Ok(())
    }

    fn observe_link(&self, job: &SyncJob) -> LinkObservation {
        LinkObservation {
            source_exists: self.is_there(&job.source),
            target_exists: self.is_there(&job.target),
            target_link: self.read_link(&job.target),
            parent_exists: self.parent_exists(&job.target),
        }
    }

    fn sync(&mut self, m: &DotfileManager, profile: &str, dry_run: bool) -> Result<Vec<String>, ManagerError> {
        let (mut run, mut req) = SyncRun::start(m, profile, dry_run);
        loop {
            req = match req {
                SyncRequest::EnsureDir { path } => {
                    self.make_dirs(&path);
                    run.completed(m, Ok(()))
                }
                SyncRequest::Observe { job } => {
                    let obs = self.observe_link(&job);
                    run.observed(m, &obs, SYNC_STAMP)
                }
                SyncRequest::Perform { actions } => {
                    let outcome = self.perform(actions);
                    run.completed(m, outcome)
                }
                SyncRequest::Finished { logs } => return Ok(logs),
                SyncRequest::Failed { error } => return Err(error),
            };
        }
    }

    fn list_backups(&self, m: &DotfileManager) -> Vec<BackupEntry> {
        if !self.is_there(&m.backup_path) {
            return Vec::new();
        }
        let files: Vec<BackupFile> = self
            .nodes
            .iter()
            .filter(|(p, _)| parent_of(p).as_deref() == Some(m.backup_path.as_str()))
            .filter_map(|(p, n)| match n {
                Node::File(b) => Some(BackupFile { path: p.clone(), name: name_of(p), size: b.len() as u64 }),
                Node::Link(_) => None,
            })
            .collect();
        m.list_backups(&files)
    }

    fn restore(&mut self, m: &DotfileManager, b: &BackupEntry, dry_run: bool) -> Result<Vec<String>, ManagerError> {
        let target = if self.is_symlink(&b.target_path) {
            TargetKind::Symlink
        } else if self.nodes.contains_key(&b.target_path) {
            TargetKind::Other
        } else {
            TargetKind::Missing
        };
        let obs = RestoreObservation {
            backup_exists: self.is_there(&b.backup_path),
            target,
            parent_exists: self.parent_exists(&b.target_path),
        };
        let plan = m.restore_backup(b, &obs, dry_run, RESTORE_STAMP)?;
        self.perform(plan.actions).map_err(ManagerError::Io)?;
        Ok(plan.logs)
    }

    fn preview_diff(&self, m: &DotfileManager, profile: &str) -> Result<Vec<DiffResult>, ManagerError> {
        let jobs = m.preview_diff(profile)?;
        let observations: Vec<DiffObservation> = jobs
            .iter()
            .map(|job| DiffObservation {
                target_exists: self.is_there(&job.target),
                target_link: self.read_link(&job.target),
                source_text: self.read_text(&job.source),
                source_bytes: self.bytes(&job.source).cloned(),
                target_text: self.read_text(&job.target),
                target_bytes: self.bytes(&job.target).cloned(),
            })
            .collect();
        Ok(DotfileManager::preview_results(&jobs, &observations))
    }
}

fn manager(config_path: &str, repo: &str, backups: &str, profile: &str, links: &[(&str, &str)]) -> DotfileManager {
    let config = Config {
        settings: Settings { repo_dir: repo.to_string(), backup_dir: backups.to_string() },
        profiles: vec![(
            profile.to_string(),
            Profile {
                links: links
                    .iter()
                    .map(|(s, t)| Link { source: s.to_string(), target: t.to_string() })
                    .collect(),
            },
        )],
    };
    match DotfileManager::new(config, config_path) {
        Ok(m) => m,
        Err(e) => panic!("{}", e.message()),
    }
}

fn text(fs: &MemFs, p: &str) -> String {
    fs.read_text(p).unwrap()
}

#[test]
fn test_full_sync_workflow() {
    let mut fs = MemFs::new();
    fs.write("/t/dotfiles/.bashrc", b"REPO BASHRC");
    fs.write("/t/dotfiles/.vimrc", b"REPO VIMRC");
    fs.write("/t/home/.bashrc", b"OLD BASHRC");
    fs.write("/t/home/.gitconfig", b"OLD GITCONFIG");
    let m = manager(
        "/t/config.toml",
        "/t/dotfiles",
        "/t/backups",
        "test",
        &[(".bashrc", "/t/home/.bashrc"), (".vimrc", "/t/home/.vimrc")],
    );

    let dry_run_logs = fs.sync(&m, "test", true).unwrap();
    assert!(dry_run_logs.iter().any(|s| s.contains("DRY RUN")));
    assert!(dry_run_logs.iter().any(|s| s.contains("BACKUP") && s.contains("Moving existing file")));
    assert!(dry_run_logs.iter().any(|s| s.contains("LINK") && s.contains("Creating symlink")));
    assert_eq!(text(&fs, "/t/home/.bashrc"), "OLD BASHRC");
    assert!(!fs.is_there("/t/home/.vimrc"));
    assert!(!fs.is_there("/t/backups"));

    let sync_logs = fs.sync(&m, "test", false).unwrap();
    assert!(sync_logs.iter().any(|s| s.contains("--- Executing Sync")));
    assert!(fs.is_there("/t/backups"));
    assert!(fs.is_symlink("/t/home/.bashrc"));
    assert_eq!(text(&fs, "/t/home/.bashrc"), "REPO BASHRC");
    assert!(fs.is_symlink("/t/home/.vimrc"));
    assert_eq!(text(&fs, "/t/home/.vimrc"), "REPO VIMRC");
    let backups: Vec<&String> =
        fs.nodes.keys().filter(|p| parent_of(p).as_deref() == Some("/t/backups")).collect();
    assert_eq!(backups.len(), 1);
    assert!(name_of(backups[0]).starts_with(".bashrc_"));
    assert!(!fs.is_symlink("/t/home/.gitconfig"));
    assert_eq!(text(&fs, "/t/home/.gitconfig"), "OLD GITCONFIG");
}

#[test]
fn test_cli_headless_mode_sync() {
    let mut fs = MemFs::new();
    fs.write("/t/dotfiles/.bashrc", b"CLI BASHRC");
    let m = manager("/t/config.toml", "/t/dotfiles", "/t/backups", "cli_test", &[(".bashrc", "/t/home/.bashrc")]);
    // The home directory does not exist yet: the sync makes it.
    let logs = fs.sync(&m, "cli_test", false).unwrap();
    assert!(logs.iter().any(|s| s.contains("Executing Sync")));
    assert!(logs.iter().any(|s| s.contains("Sync Finished")));
    assert!(fs.is_symlink("/t/home/.bashrc"));
}

#[test]
fn test_cli_headless_mode_dry_run() {
    let mut fs = MemFs::new();
    fs.write("/t/dotfiles/.bashrc", b"CLI BASHRC");
    fs.write("/t/home/.bashrc", b"EXISTING BASHRC");
    let m = manager("/t/config.toml", "/t/dotfiles", "/t/backups", "dryrun_test", &[(".bashrc", "/t/home/.bashrc")]);
    let logs = fs.sync(&m, "dryrun_test", true).unwrap();
    assert!(logs.iter().any(|s| s.contains("DRY RUN")));
    assert!(logs.iter().any(|s| s.contains("BACKUP") && s.contains("Moving existing file")));
    assert_eq!(text(&fs, "/t/home/.bashrc"), "EXISTING BASHRC");
    assert!(!fs.is_symlink("/t/home/.bashrc"));
    assert!(!fs.is_there("/t/backups"));
}

#[test]
fn test_cli_custom_config_path() {
    let mut fs = MemFs::new();
    fs.make_dirs("/t/custom");
    fs.write("/t/dotfiles/.bashrc", b"CUSTOM CONFIG BASHRC");
    let m = manager("/t/custom/my-config.toml", "/t/dotfiles", "backups", "custom", &[(".bashrc", "/t/home/.bashrc")]);
    assert_eq!(m.backup_path, "/t/custom/backups");
    let logs = fs.sync(&m, "custom", false).unwrap();
    assert!(logs.iter().any(|s| s.contains("Executing Sync")));
    assert!(fs.is_symlink("/t/home/.bashrc"));
    assert!(fs.is_there("/t/custom/backups"));
}

#[test]
fn test_restore_workflow() {
    let mut fs = MemFs::new();
    fs.write("/t/dotfiles/.bashrc", b"REPO BASHRC");
    fs.write("/t/home/.bashrc", b"OLD BASHRC");
    let m = manager("/t/config.toml", "/t/dotfiles", "/t/backups", "test", &[(".bashrc", "/t/home/.bashrc")]);
    fs.sync(&m, "test", false).unwrap();
    assert!(fs.is_symlink("/t/home/.bashrc"));
    assert_eq!(text(&fs, "/t/home/.bashrc"), "REPO BASHRC");

    let backups = fs.list_backups(&m);
    assert_eq!(backups.len(), 1);
    let backup = &backups[0];
    assert_eq!(backup.original_name, ".bashrc");
    assert_eq!(backup.target_path, "/t/home/.bashrc");
    assert!(fs.is_there(&backup.backup_path));
    assert_eq!(text(&fs, &backup.backup_path), "OLD BASHRC");

    let dry_run_logs = fs.restore(&m, backup, true).unwrap();
    assert!(dry_run_logs.iter().any(|s| s.contains("DRY RUN")));
    assert!(fs.is_symlink("/t/home/.bashrc"));

    let restore_logs = fs.restore(&m, backup, false).unwrap();
    assert!(restore_logs.iter().any(|s| s.contains("Restoring backup")));
    assert!(restore_logs.iter().any(|s| s.contains("RESTORE")));
    assert_eq!(text(&fs, "/t/home/.bashrc"), "OLD BASHRC");
    assert!(!fs.is_there(&backup.backup_path));
}

#[test]
fn test_restore_backup_before_restore() {
    let mut fs = MemFs::new();
    fs.write("/t/dotfiles/.bashrc", b"REPO BASHRC");
    fs.write("/t/home/.bashrc", b"OLD BASHRC");
    let m = manager("/t/config.toml", "/t/dotfiles", "/t/backups", "test", &[(".bashrc", "/t/home/.bashrc")]);
    fs.sync(&m, "test", false).unwrap();
    assert!(fs.is_symlink("/t/home/.bashrc"));

    // The user replaces the link with a file of their own.
    fs.nodes.remove("/t/home/.bashrc");
    fs.write("/t/home/.bashrc", b"MODIFIED BASHRC");

    let backups = fs.list_backups(&m);
    assert_eq!(backups.len(), 1);
    let original_backup = &backups[0];
    fs.restore(&m, original_backup, false).unwrap();

    let backups = fs.list_backups(&m);
    assert_eq!(backups.len(), 1);
    assert_eq!(text(&fs, &backups[0].backup_path), "MODIFIED BASHRC");
    assert_eq!(text(&fs, "/t/home/.bashrc"), "OLD BASHRC");
}

#[test]
fn test_diff_preview_binary_file() {
    let mut fs = MemFs::new();
    fs.write("/t/dotfiles/image.bin", &[0u8, 1, 2, 3, 0, 255]);
    fs.write("/t/home/image.bin", &[0u8, 5, 6, 7, 0, 255]);
    let m = manager("/t/config.toml", "/t/dotfiles", "/t/backups", "test", &[("image.bin", "/t/home/image.bin")]);
    let diffs = fs.preview_diff(&m, "test").unwrap();
    assert_eq!(diffs.len(), 1);
    match &diffs[0] {
        DiffResult::BinaryFile { .. } => {}
        _ => panic!("Expected BinaryFile for image.bin"),
    }
}
