//! The state of the terminal interface and how keys and messages from the
//! workers change it. Each change may ask for work to be started: the caller
//! does that work and reports back with a message.

use vstd::prelude::*;
use crate::diff::{DiffResult, DiffResultView};
use crate::restore::{BackupEntry, BackupEntryView};
use crate::text::decimal;
use crate::error::{ManagerError, error_message};

verus! {

/// The most log lines kept once a worker's log line arrives.
pub const MAX_LOG_MESSAGES: usize = 1000;

/// What the interface shows and what keys do.
#[derive(PartialEq, Eq, Structural, Clone, Copy, Debug)]
pub enum AppMode {
    /// Choose and sync profiles.
    Sync,
    /// Browse and restore backups.
    Restore,
    /// Read the diffs a sync would apply.
    DiffPreview,
}

/// A key press, as far as the interface tells keys apart.
#[derive(PartialEq, Eq, Structural, Clone, Copy, Debug)]
pub enum Key {
    Char(char),
    Esc,
    Enter,
    Up,
    Down,
    Delete,
    Other,
}

/// What a worker reports.
pub enum WorkerMessage {
    /// A line for the log.
    Log(String),
    /// A sync has finished.
    SyncComplete,
    /// A restore has finished.
    RestoreComplete,
    /// The backups, newest first.
    BackupsListed(Vec<BackupEntry>),
    /// The diffs of a preview.
    DiffGenerated(Vec<DiffResult>),
}

/// Work that the interface asks to be started; its outcome comes back as
/// worker messages.
pub enum Command {
    /// Nothing to start.
    Nothing,
    /// List the backups; report them, or log the error and report none.
    ListBackups,
    /// Sync a profile; log its lines or its error, then report completion.
    Sync { profile: String, dry_run: bool },
    /// Restore a backup; log its lines or its error, then report completion.
    Restore { backup: BackupEntry, dry_run: bool },
    /// Delete a backup, log the outcome, then list the backups again.
    DeleteBackup { backup: BackupEntry },
    /// Generate the diffs of a profile; report them, or log the error and
    /// report none.
    PreviewDiff { profile: String },
}

/// A command as plain values.
pub enum CommandView {
    Nothing,
    ListBackups,
    Sync { profile: Seq<char>, dry_run: bool },
    Restore { backup: BackupEntryView, dry_run: bool },
    DeleteBackup { backup: BackupEntryView },
    PreviewDiff { profile: Seq<char> },
}

impl View for Command {
    type V = CommandView;

    open spec fn view(&self) -> CommandView {
        match self {
            Command::Nothing => CommandView::Nothing,
            Command::ListBackups => CommandView::ListBackups,
            Command::Sync { profile, dry_run } => CommandView::Sync { profile: profile@, dry_run: *dry_run },
            Command::Restore { backup, dry_run } => CommandView::Restore { backup: backup@, dry_run: *dry_run },
            Command::DeleteBackup { backup } => CommandView::DeleteBackup { backup: backup@ },
            Command::PreviewDiff { profile } => CommandView::PreviewDiff { profile: profile@ },
        }
    }
}

/// The state of the interface.
pub struct App {
    pub profiles: Vec<String>,
    pub selected_profile: Option<usize>,
    pub logs: Vec<String>,
    pub should_quit: bool,
    pub sync_in_progress: bool,
    pub mode: AppMode,
    pub backups: Vec<BackupEntry>,
    pub selected_backup: Option<usize>,
    pub restore_in_progress: bool,
    pub diffs: Vec<DiffResult>,
    pub selected_diff: Option<usize>,
    pub diff_scroll: u16,
}

/// The state of the interface as plain values.
#[verifier::ext_equal]
pub struct AppView {
    pub profiles: Seq<Seq<char>>,
    pub selected_profile: Option<usize>,
    pub logs: Seq<Seq<char>>,
    pub should_quit: bool,
    pub sync_in_progress: bool,
    pub mode: AppMode,
    pub backups: Seq<BackupEntryView>,
    pub selected_backup: Option<usize>,
    pub restore_in_progress: bool,
    pub diffs: Seq<DiffResultView>,
    pub selected_diff: Option<usize>,
    pub diff_scroll: u16,
}

impl View for App {
    type V = AppView;

    open spec fn view(&self) -> AppView {
        AppView {
            profiles: self.profiles@.map_values(|s: String| s@),
            selected_profile: self.selected_profile,
            logs: self.logs@.map_values(|s: String| s@),
            should_quit: self.should_quit,
            sync_in_progress: self.sync_in_progress,
            mode: self.mode,
            backups: self.backups@.map_values(|b: BackupEntry| b@),
            selected_backup: self.selected_backup,
            restore_in_progress: self.restore_in_progress,
            diffs: self.diffs@.map_values(|d: DiffResult| d@),
            selected_diff: self.selected_diff,
            diff_scroll: self.diff_scroll,
        }
    }
}

/// A selection is empty or within a list of `len` items.
pub open spec fn selection_ok(sel: Option<usize>, len: nat) -> bool {
    sel matches Some(i) ==> i < len
}

impl AppView {
    /// Every selection points into its list.
    pub open spec fn wf(self) -> bool {
        &&& selection_ok(self.selected_profile, self.profiles.len())
        &&& selection_ok(self.selected_backup, self.backups.len())
        &&& selection_ok(self.selected_diff, self.diffs.len())
    }
}

/// The selection after moving down a list of `len` items: from the last item
/// back to the first; nothing changes in an empty list.
pub open spec fn next_selection(sel: Option<usize>, len: nat) -> Option<usize> {
    if len == 0 {
        sel
    } else {
        let i = match sel { Some(i) => i as int, None => 0 };
        Some((if i >= len - 1 { 0 } else { i + 1 }) as usize)
    }
}

/// The selection after moving up a list of `len` items: from the first item
/// to the last; nothing changes in an empty list.
pub open spec fn previous_selection(sel: Option<usize>, len: nat) -> Option<usize> {
    if len == 0 {
        sel
    } else {
        let i = match sel { Some(i) => i as int, None => 0 };
        Some((if i == 0 { len - 1 } else { i - 1 }) as usize)
    }
}

/// `a` with `lines` added to its log.
pub open spec fn with_logs(a: AppView, lines: Seq<Seq<char>>) -> AppView {
    AppView { logs: a.logs + lines, ..a }
}

/// The lines that open every logged operation: a separator and a heading.
pub open spec fn section(heading: Seq<char>) -> Seq<Seq<char>> {
    seq!["---"@, heading]
}

/// Entering restore mode: the backups are to be listed.
pub open spec fn enter_restore(a: AppView) -> (AppView, CommandView) {
    (with_logs(AppView { mode: AppMode::Restore, ..a }, section("Entering Restore Mode..."@)), CommandView::ListBackups)
}

/// Leaving restore mode.
pub open spec fn exit_restore(a: AppView) -> AppView {
    with_logs(
        AppView { mode: AppMode::Sync, backups: seq![], selected_backup: None, ..a },
        section("Exited Restore Mode"@),
    )
}

/// Starting a sync (or a dry run) of the selected profile.
pub open spec fn start_sync(a: AppView, dry_run: bool) -> (AppView, CommandView) {
    if a.sync_in_progress {
        (a, CommandView::Nothing)
    } else {
        match a.selected_profile {
            Some(i) => (
                with_logs(
                    AppView { sync_in_progress: true, ..a },
                    section(if dry_run { "Starting Dry Run..."@ } else { "Starting Sync..."@ }),
                ),
                CommandView::Sync { profile: a.profiles[i as int], dry_run },
            ),
            None => (with_logs(a, seq!["[ERROR] No profile selected."@]), CommandView::Nothing),
        }
    }
}

/// Starting the restore (or a dry run) of the selected backup.
pub open spec fn start_restore(a: AppView, dry_run: bool) -> (AppView, CommandView) {
    if a.restore_in_progress {
        (a, CommandView::Nothing)
    } else {
        match a.selected_backup {
            Some(i) => if i >= a.backups.len() {
                (with_logs(a, seq!["[ERROR] Invalid backup selection."@]), CommandView::Nothing)
            } else {
                (
                    with_logs(
                        AppView { restore_in_progress: true, ..a },
                        section(if dry_run { "Starting Restore Dry Run..."@ } else { "Starting Restore..."@ }),
                    ),
                    CommandView::Restore { backup: a.backups[i as int], dry_run },
                )
            },
            None => (with_logs(a, seq!["[ERROR] No backup selected."@]), CommandView::Nothing),
        }
    }
}

/// Deleting the selected backup.
pub open spec fn delete_selected(a: AppView) -> (AppView, CommandView) {
    if a.restore_in_progress {
        (a, CommandView::Nothing)
    } else {
        match a.selected_backup {
            Some(i) => if i >= a.backups.len() {
                (with_logs(a, seq!["[ERROR] Invalid backup selection."@]), CommandView::Nothing)
            } else {
                (
                    with_logs(a, section("Deleting backup: "@ + a.backups[i as int].backup_path)),
                    CommandView::DeleteBackup { backup: a.backups[i as int] },
                )
            },
            None => (with_logs(a, seq!["[ERROR] No backup selected."@]), CommandView::Nothing),
        }
    }
}

/// Entering the diff preview of the selected profile.
pub open spec fn enter_diff_preview(a: AppView) -> (AppView, CommandView) {
    match a.selected_profile {
        Some(i) => (
            with_logs(
                AppView { mode: AppMode::DiffPreview, diff_scroll: 0, ..a },
                section("Generating diff preview for profile: "@ + a.profiles[i as int]),
            ),
            CommandView::PreviewDiff { profile: a.profiles[i as int] },
        ),
        None => (with_logs(a, seq!["[ERROR] No profile selected."@]), CommandView::Nothing),
    }
}

/// Leaving the diff preview.
pub open spec fn exit_diff_preview(a: AppView) -> AppView {
    with_logs(
        AppView { mode: AppMode::Sync, diffs: seq![], selected_diff: None, diff_scroll: 0, ..a },
        section("Exited Diff Preview Mode"@),
    )
}

/// Moving to another diff starts it from its top.
pub open spec fn select_diff(a: AppView, sel: Option<usize>) -> AppView {
    if a.diffs.len() == 0 {
        a
    } else {
        AppView { selected_diff: sel, diff_scroll: 0, ..a }
    }
}

/// What a key does in sync mode.
pub open spec fn sync_mode_key(a: AppView, key: Key) -> (AppView, CommandView) {
    match key {
        Key::Char('q') | Key::Esc => (AppView { should_quit: true, ..a }, CommandView::Nothing),
        Key::Char('j') | Key::Down => (
            AppView { selected_profile: next_selection(a.selected_profile, a.profiles.len()), ..a },
            CommandView::Nothing,
        ),
        Key::Char('k') | Key::Up => (
            AppView { selected_profile: previous_selection(a.selected_profile, a.profiles.len()), ..a },
            CommandView::Nothing,
        ),
        Key::Char('d') => start_sync(a, true),
        Key::Char('s') | Key::Enter => start_sync(a, false),
        Key::Char('p') => enter_diff_preview(a),
        Key::Char('r') => enter_restore(a),
        _ => (a, CommandView::Nothing),
    }
}

/// What a key does in restore mode.
pub open spec fn restore_mode_key(a: AppView, key: Key) -> (AppView, CommandView) {
    match key {
        Key::Esc | Key::Char('b') => (exit_restore(a), CommandView::Nothing),
        Key::Char('j') | Key::Down => (
            AppView { selected_backup: next_selection(a.selected_backup, a.backups.len()), ..a },
            CommandView::Nothing,
        ),
        Key::Char('k') | Key::Up => (
            AppView { selected_backup: previous_selection(a.selected_backup, a.backups.len()), ..a },
            CommandView::Nothing,
        ),
        Key::Char('r') | Key::Enter => start_restore(a, false),
        Key::Char('d') => start_restore(a, true),
        Key::Delete => delete_selected(a),
        _ => (a, CommandView::Nothing),
    }
}

/// What a key does in the diff preview.
pub open spec fn diff_mode_key(a: AppView, key: Key) -> (AppView, CommandView) {
    match key {
        Key::Esc | Key::Char('q') => (exit_diff_preview(a), CommandView::Nothing),
        Key::Char('j') | Key::Down => (
            AppView { diff_scroll: if a.diff_scroll == u16::MAX { u16::MAX } else { (a.diff_scroll + 1) as u16 }, ..a },
            CommandView::Nothing,
        ),
        Key::Char('k') | Key::Up => (
            AppView { diff_scroll: if a.diff_scroll == 0 { 0 } else { (a.diff_scroll - 1) as u16 }, ..a },
            CommandView::Nothing,
        ),
        Key::Char('n') => (select_diff(a, next_selection(a.selected_diff, a.diffs.len())), CommandView::Nothing),
        Key::Char('N') => (select_diff(a, previous_selection(a.selected_diff, a.diffs.len())), CommandView::Nothing),
        _ => (a, CommandView::Nothing),
    }
}

/// What a key does: nothing while a sync or a restore runs; otherwise what
/// the current mode makes of it.
pub open spec fn key_step(a: AppView, key: Key) -> (AppView, CommandView) {
    if a.sync_in_progress || a.restore_in_progress {
        (a, CommandView::Nothing)
    } else {
        match a.mode {
            AppMode::Sync => sync_mode_key(a, key),
            AppMode::Restore => restore_mode_key(a, key),
            AppMode::DiffPreview => diff_mode_key(a, key),
        }
    }
}

/// The log after a worker's line: the line added, then the oldest lines
/// dropped until at most `MAX_LOG_MESSAGES` remain.
pub open spec fn rotated_logs(logs: Seq<Seq<char>>, line: Seq<char>) -> Seq<Seq<char>> {
    let all = logs.push(line);
    if all.len() > MAX_LOG_MESSAGES {
        all.skip(all.len() - MAX_LOG_MESSAGES)
    } else {
        all
    }
}

/// What a message from a worker does.
pub open spec fn message_step(a: AppView, msg: WorkerMessage) -> (AppView, CommandView) {
    match msg {
        WorkerMessage::Log(line) => (AppView { logs: rotated_logs(a.logs, line@), ..a }, CommandView::Nothing),
        WorkerMessage::SyncComplete => (AppView { sync_in_progress: false, ..a }, CommandView::Nothing),
        WorkerMessage::RestoreComplete => enter_restore(AppView { restore_in_progress: false, ..a }),
        WorkerMessage::BackupsListed(b) => (
            with_logs(
                AppView {
                    backups: b@.map_values(|e: BackupEntry| e@),
                    selected_backup: if b@.len() > 0 { Some(0) } else { None },
                    ..a
                },
                seq!["Found "@ + decimal(b@.len()) + " backup(s)"@],
            ),
            CommandView::Nothing,
        ),
        WorkerMessage::DiffGenerated(d) => (
            with_logs(
                AppView {
                    diffs: d@.map_values(|r: DiffResult| r@),
                    selected_diff: if d@.len() > 0 { Some(0) } else { None },
                    ..a
                },
                seq!["Generated "@ + decimal(d@.len()) + " diff(s)"@],
            ),
            CommandView::Nothing,
        ),
    }
}


/// The state when the interface starts: the profiles listed, the first one
/// selected, and the welcome lines in the log.
pub open spec fn initial_state(profiles: Seq<Seq<char>>) -> AppView {
    AppView {
        profiles,
        selected_profile: if profiles.len() == 0 { None } else { Some(0) },
        logs: seq![
            "Welcome to the TUI Dotfile Manager!"@,
            "Use 'j'/'k' or Arrow Up/Down to select a profile."@,
            "'s' = Sync, 'd' = Dry Run, 'p' = Diff Preview, 'r' = Restore Mode, 'q' = Quit."@,
        ],
        should_quit: false,
        sync_in_progress: false,
        mode: AppMode::Sync,
        backups: seq![],
        selected_backup: None,
        restore_in_progress: false,
        diffs: seq![],
        selected_diff: None,
        diff_scroll: 0,
    }
}

fn next_index(sel: Option<usize>, len: usize) -> (r: Option<usize>)
    ensures
        r == next_selection(sel, len as nat),
{
    if len == 0 {
        sel
    } else {
        let i = match sel { Some(i) => i, None => 0 };
        Some(if i >= len - 1 { 0 } else { i + 1 })
    }
}

fn previous_index(sel: Option<usize>, len: usize) -> (r: Option<usize>)
    ensures
        r == previous_selection(sel, len as nat),
{
    if len == 0 {
        sel
    } else {
        let i = match sel { Some(i) => i, None => 0 };
        Some(if i == 0 { len - 1 } else { i - 1 })
    }
}

fn text_with(a: &str, b: &str) -> (r: String)
    ensures
        r@ == a@ + b@,
{
    let mut r = a.to_owned();
    r.append(b);
    r
}

impl App {
    /// The interface as it starts, listing `profiles`.
    pub fn new(profiles: Vec<String>) -> (app: App)
        ensures
            app@ == initial_state(profiles@.map_values(|s: String| s@)),
            app@.wf(),
    {
        let selected_profile = if profiles.len() == 0 { None } else { Some(0) };
        let mut logs: Vec<String> = Vec::new();
        logs.push("Welcome to the TUI Dotfile Manager!".to_owned());
        logs.push("Use 'j'/'k' or Arrow Up/Down to select a profile.".to_owned());
        logs.push("'s' = Sync, 'd' = Dry Run, 'p' = Diff Preview, 'r' = Restore Mode, 'q' = Quit.".to_owned());
        let app = App {
            profiles,
            selected_profile,
            logs,
            should_quit: false,
            sync_in_progress: false,
            mode: AppMode::Sync,
            backups: Vec::new(),
            selected_backup: None,
            restore_in_progress: false,
            diffs: Vec::new(),
            selected_diff: None,
            diff_scroll: 0,
        };
        assert(app@ =~= initial_state(app.profiles@.map_values(|s: String| s@)));
        app
    }

    fn log(&mut self, line: String)
        ensures
            final(self)@ == with_logs(old(self)@, seq![line@]),
    {
        self.logs.push(line);
        assert(final(self)@.logs =~= old(self)@.logs + seq![line@]);
        assert(final(self)@ =~= with_logs(old(self)@, seq![line@]));
    }

    fn log_section(&mut self, heading: String)
        ensures
            final(self)@ == with_logs(old(self)@, section(heading@)),
    {
        let ghost a = self@;
        self.log("---".to_owned());
        self.log(heading);
        assert(self@ =~= with_logs(a, section(heading@)));
    }

    fn enter_restore_mode(&mut self) -> (c: Command)
        ensures
            (final(self)@, c@) == enter_restore(old(self)@),
    {
        self.mode = AppMode::Restore;
        self.log_section("Entering Restore Mode...".to_owned());
        Command::ListBackups
    }

    fn exit_restore_mode(&mut self)
        ensures
            final(self)@ == exit_restore(old(self)@),
    {
        self.mode = AppMode::Sync;
        self.backups.clear();
        self.selected_backup = None;
        self.log_section("Exited Restore Mode".to_owned());
        assert(self@ =~= exit_restore(old(self)@));
    }

    fn start_sync(&mut self, dry_run: bool) -> (c: Command)
        requires
            old(self)@.wf(),
        ensures
            (final(self)@, c@) == start_sync(old(self)@, dry_run),
    {
        if self.sync_in_progress {
            return Command::Nothing;
        }
        match self.selected_profile {
            Some(i) => {
                self.sync_in_progress = true;
                let profile = self.profiles[i].clone();
                let heading = if dry_run { "Starting Dry Run...".to_owned() } else { "Starting Sync...".to_owned() };
                self.log_section(heading);
                Command::Sync { profile, dry_run }
            },
            None => {
                self.log("[ERROR] No profile selected.".to_owned());
                Command::Nothing
            },
        }
    }

    fn start_restore(&mut self, dry_run: bool) -> (c: Command)
        ensures
            (final(self)@, c@) == start_restore(old(self)@, dry_run),
    {
        if self.restore_in_progress {
            return Command::Nothing;
        }
        match self.selected_backup {
            Some(i) => {
                if i >= self.backups.len() {
                    self.log("[ERROR] Invalid backup selection.".to_owned());
                    return Command::Nothing;
                }
                self.restore_in_progress = true;
                let backup = self.backups[i].duplicate();
                let heading = if dry_run {
                    "Starting Restore Dry Run...".to_owned()
                } else {
                    "Starting Restore...".to_owned()
                };
                self.log_section(heading);
                Command::Restore { backup, dry_run }
            },
            None => {
                self.log("[ERROR] No backup selected.".to_owned());
                Command::Nothing
            },
        }
    }

    fn delete_selected_backup(&mut self) -> (c: Command)
        ensures
            (final(self)@, c@) == delete_selected(old(self)@),
    {
        if self.restore_in_progress {
            return Command::Nothing;
        }
        match self.selected_backup {
            Some(i) => {
                if i >= self.backups.len() {
                    self.log("[ERROR] Invalid backup selection.".to_owned());
                    return Command::Nothing;
                }
                let backup = self.backups[i].duplicate();
                let heading = text_with("Deleting backup: ", backup.backup_path.as_str());
                self.log_section(heading);
                Command::DeleteBackup { backup }
            },
            None => {
                self.log("[ERROR] No backup selected.".to_owned());
                Command::Nothing
            },
        }
    }

    fn enter_diff_preview_mode(&mut self) -> (c: Command)
        requires
            old(self)@.wf(),
        ensures
            (final(self)@, c@) == enter_diff_preview(old(self)@),
    {
        match self.selected_profile {
            Some(i) => {
                let profile = self.profiles[i].clone();
                self.mode = AppMode::DiffPreview;
                self.diff_scroll = 0;
                let heading = text_with("Generating diff preview for profile: ", profile.as_str());
                self.log_section(heading);
                Command::PreviewDiff { profile }
            },
            None => {
                self.log("[ERROR] No profile selected.".to_owned());
                Command::Nothing
            },
        }
    }

    fn exit_diff_preview_mode(&mut self)
        ensures
            final(self)@ == exit_diff_preview(old(self)@),
    {
        self.mode = AppMode::Sync;
        self.diffs.clear();
        self.selected_diff = None;
        self.diff_scroll = 0;
        self.log_section("Exited Diff Preview Mode".to_owned());
        assert(self@ =~= exit_diff_preview(old(self)@));
    }

    fn handle_sync_mode_key(&mut self, key: Key) -> (c: Command)
        requires
            old(self)@.wf(),
        ensures
            (final(self)@, c@) == sync_mode_key(old(self)@, key),
    {
        match key {
            Key::Char('q') | Key::Esc => {
                self.should_quit = true;
                Command::Nothing
            },
            Key::Char('j') | Key::Down => {
                self.selected_profile = next_index(self.selected_profile, self.profiles.len());
                Command::Nothing
            },
            Key::Char('k') | Key::Up => {
                self.selected_profile = previous_index(self.selected_profile, self.profiles.len());
                Command::Nothing
            },
            Key::Char('d') => self.start_sync(true),
            Key::Char('s') | Key::Enter => self.start_sync(false),
            Key::Char('p') => self.enter_diff_preview_mode(),
            Key::Char('r') => self.enter_restore_mode(),
            _ => Command::Nothing,
        }
    }

    fn handle_restore_mode_key(&mut self, key: Key) -> (c: Command)
        ensures
            (final(self)@, c@) == restore_mode_key(old(self)@, key),
    {
        match key {
            Key::Esc | Key::Char('b') => {
                self.exit_restore_mode();
                Command::Nothing
            },
            Key::Char('j') | Key::Down => {
                self.selected_backup = next_index(self.selected_backup, self.backups.len());
                Command::Nothing
            },
            Key::Char('k') | Key::Up => {
                self.selected_backup = previous_index(self.selected_backup, self.backups.len());
                Command::Nothing
            },
            Key::Char('r') | Key::Enter => self.start_restore(false),
            Key::Char('d') => self.start_restore(true),
            Key::Delete => self.delete_selected_backup(),
            _ => Command::Nothing,
        }
    }

    fn handle_diff_mode_key(&mut self, key: Key) -> (c: Command)
        ensures
            (final(self)@, c@) == diff_mode_key(old(self)@, key),
    {
        match key {
            Key::Esc | Key::Char('q') => {
                self.exit_diff_preview_mode();
            },
            Key::Char('j') | Key::Down => {
                self.diff_scroll = self.diff_scroll.saturating_add(1);
            },
            Key::Char('k') | Key::Up => {
                self.diff_scroll = self.diff_scroll.saturating_sub(1);
            },
            Key::Char('n') => {
                if self.diffs.len() > 0 {
                    self.selected_diff = next_index(self.selected_diff, self.diffs.len());
                    self.diff_scroll = 0;
                }
            },
            Key::Char('N') => {
                if self.diffs.len() > 0 {
                    self.selected_diff = previous_index(self.selected_diff, self.diffs.len());
                    self.diff_scroll = 0;
                }
            },
            _ => {},
        }
        Command::Nothing
    }

    /// Whether every selection points into its list.
    pub fn well_formed(&self) -> (r: bool)
        ensures
            r == self@.wf(),
    {
        let ok_profile = match self.selected_profile { Some(i) => i < self.profiles.len(), None => true };
        let ok_backup = match self.selected_backup { Some(i) => i < self.backups.len(), None => true };
        let ok_diff = match self.selected_diff { Some(i) => i < self.diffs.len(), None => true };
        ok_profile && ok_backup && ok_diff
    }

    /// Handles a key: nothing happens while a sync or a restore runs;
    /// otherwise the current mode decides, and the work to start, if any, is
    /// returned.
    pub fn on_key(&mut self, key: Key) -> (c: Command)
        requires
            old(self)@.wf(),
        ensures
            (final(self)@, c@) == key_step(old(self)@, key),
            final(self)@.wf(),
    {
        let n_profiles = self.profiles.len();
        let n_backups = self.backups.len();
        let n_diffs = self.diffs.len();
        proof {
            assert(self@.profiles.len() == n_profiles);
            assert(self@.backups.len() == n_backups);
            assert(self@.diffs.len() == n_diffs);
            lemma_keys_keep_selections_valid(self@, key);
        }
        if self.sync_in_progress || self.restore_in_progress {
            return Command::Nothing;
        }
        match self.mode {
            AppMode::Sync => self.handle_sync_mode_key(key),
            AppMode::Restore => self.handle_restore_mode_key(key),
            AppMode::DiffPreview => self.handle_diff_mode_key(key),
        }
    }

    /// Handles a message from a worker; the work to start, if any, is
    /// returned.
    pub fn on_log(&mut self, msg: WorkerMessage) -> (c: Command)
        ensures
            (final(self)@, c@) == message_step(old(self)@, msg),
            old(self)@.wf() ==> final(self)@.wf(),
    {
        proof {
            if self@.wf() {
                lemma_messages_keep_selections_valid(self@, msg);
            }
        }
        match msg {
            WorkerMessage::Log(line) => {
                let ghost l = line@;
                let ghost all = old(self)@.logs.push(l);
                self.logs.push(line);
                assert(self@.logs =~= all);
                while self.logs.len() > MAX_LOG_MESSAGES
                    invariant
                        all.len() >= self.logs@.len(),
                        self@.logs == all.skip(all.len() - self@.logs.len()),
                        self@.profiles == old(self)@.profiles,
                        self.selected_profile == old(self).selected_profile,
                        self.should_quit == old(self).should_quit,
                        self.sync_in_progress == old(self).sync_in_progress,
                        self.mode == old(self).mode,
                        self@.backups == old(self)@.backups,
                        self.selected_backup == old(self).selected_backup,
                        self.restore_in_progress == old(self).restore_in_progress,
                        self@.diffs == old(self)@.diffs,
                        self.selected_diff == old(self).selected_diff,
                        self.diff_scroll == old(self).diff_scroll,
                        all.len() <= MAX_LOG_MESSAGES ==> self@.logs.len() == all.len(),
                        all.len() > MAX_LOG_MESSAGES ==> self@.logs.len() >= MAX_LOG_MESSAGES,
                    decreases self.logs.len(),
                {
                    let ghost before = self@.logs;
                    self.logs.remove(0);
                    assert(self@.logs =~= before.drop_first());
                    assert(all.skip(all.len() - self@.logs.len()) =~= before.drop_first());
                }
                proof {
                    if all.len() > MAX_LOG_MESSAGES {
                        assert(self@.logs.len() == MAX_LOG_MESSAGES);
                    } else {
                        assert(all.skip(0) =~= all);
                    }
                }
                assert(self@ =~= message_step(old(self)@, WorkerMessage::Log(line)).0);
                Command::Nothing
            },
            WorkerMessage::SyncComplete => {
                self.sync_in_progress = false;
                Command::Nothing
            },
            WorkerMessage::RestoreComplete => {
                self.restore_in_progress = false;
                self.enter_restore_mode()
            },
            WorkerMessage::BackupsListed(backups) => {
                let count = backups.len();
                self.backups = backups;
                self.selected_backup = if count > 0 { Some(0) } else { None };
                let mut line = "Found ".to_owned();
                crate::text::push_decimal(&mut line, count as u64);
                line.append(" backup(s)");
                self.log(line);
                Command::Nothing
            },
            WorkerMessage::DiffGenerated(diffs) => {
                let count = diffs.len();
                self.diffs = diffs;
                self.selected_diff = if count > 0 { Some(0) } else { None };
                let mut line = "Generated ".to_owned();
                crate::text::push_decimal(&mut line, count as u64);
                line.append(" diff(s)");
                self.log(line);
                Command::Nothing
            },
        }
    }
}


/// Whether a reload of the configuration may start: not while a sync or a
/// restore runs; the log says which.
pub open spec fn reload_start(a: AppView) -> (AppView, bool) {
    if a.sync_in_progress {
        (with_logs(a, section("[WARN] Cannot reload config during sync."@)), false)
    } else if a.restore_in_progress {
        (with_logs(a, section("[WARN] Cannot reload config during restore."@)), false)
    } else {
        (with_logs(a, section("Reloading configuration..."@)), true)
    }
}

/// The first index of `x` in `s`, from index `i` on.
pub open spec fn position_from(s: Seq<Seq<char>>, x: Seq<char>, i: int) -> Option<usize>
    decreases s.len() - i,
{
    if i < 0 || i >= s.len() {
        None
    } else if s[i] == x {
        Some(i as usize)
    } else {
        position_from(s, x, i + 1)
    }
}

/// The state after a reload of the configuration: with the new profiles, the
/// same profile stays selected when it still exists, else the first one (with
/// a note in the log); with the error, nothing but the log changes.
pub open spec fn reload_finish(a: AppView, result: Result<Seq<Seq<char>>, Seq<char>>) -> AppView {
    match result {
        Ok(new) => {
            let old_name: Option<Seq<char>> = match a.selected_profile {
                Some(i) => if i < a.profiles.len() { Some(a.profiles[i as int]) } else { None },
                None => None,
            };
            let (sel, note): (Option<usize>, Seq<Seq<char>>) = match old_name {
                Some(name) => match position_from(new, name, 0) {
                    Some(p) => (Some(p), seq![]),
                    None => if new.len() > 0 {
                        (
                            Some(0usize),
                            seq![
                                "[INFO] Profile '"@ + name + "' no longer exists. Switched to '"@
                                    + new[0] + "'."@,
                            ],
                        )
                    } else {
                        (None, seq![])
                    },
                },
                None => (if new.len() > 0 { Some(0usize) } else { None }, seq![]),
            };
            with_logs(
                AppView { profiles: new, selected_profile: sel, ..a },
                note + seq![
                    "[SUCCESS] Configuration reloaded. "@ + decimal(new.len()) + " profile(s) available."@,
                ],
            )
        },
        Err(e) => with_logs(
            a,
            seq!["[ERROR] Failed to reload configuration: "@ + e, "[INFO] Using previous configuration."@],
        ),
    }
}

/// A result of strings as plain values.
pub open spec fn profiles_result(r: Result<Vec<String>, String>) -> Result<Seq<Seq<char>>, Seq<char>> {
    match r {
        Ok(v) => Ok(v@.map_values(|s: String| s@)),
        Err(e) => Err(e@),
    }
}

fn position_of(v: &Vec<String>, x: &String) -> (r: Option<usize>)
    ensures
        r == position_from(v@.map_values(|s: String| s@), x@, 0),
{
    let ghost vv = v@.map_values(|s: String| s@);
    let n = v.len();
    for k in 0..n
        invariant
            n == v@.len(),
            vv == v@.map_values(|s: String| s@),
            position_from(vv, x@, 0) == position_from(vv, x@, k as int),
    {
        assert(vv[k as int] == v@[k as int]@);
        if v[k] == *x {
            return Some(k);
        }
    }
    None
}

impl App {
    /// Starts a reload of the configuration, unless a sync or a restore runs;
    /// says whether the configuration is to be read again.
    pub fn begin_reload(&mut self) -> (go: bool)
        ensures
            (final(self)@, go) == reload_start(old(self)@),
    {
        if self.sync_in_progress {
            self.log_section("[WARN] Cannot reload config during sync.".to_owned());
            return false;
        }
        if self.restore_in_progress {
            self.log_section("[WARN] Cannot reload config during restore.".to_owned());
            return false;
        }
        self.log_section("Reloading configuration...".to_owned());
        true
    }

    /// Finishes a reload with the new sorted profile names, or with the
    /// message of the error that stopped it.
    pub fn finish_reload(&mut self, result: Result<Vec<String>, String>)
        ensures
            final(self)@ == reload_finish(old(self)@, profiles_result(result)),
            old(self)@.wf() ==> final(self)@.wf(),
    {
        let n_new = match &result {
            Ok(v) => v.len(),
            Err(_) => 0,
        };
        proof {
            if self@.wf() {
                if result is Ok {
                    assert(profiles_result(result)->Ok_0.len() == n_new);
                }
                lemma_reload_keeps_selections_valid(self@, profiles_result(result));
            }
        }
        let ghost a = self@;
        let ghost rv = profiles_result(result);
        match result {
            Ok(new_profiles) => {
                let old_name: Option<String> = match self.selected_profile {
                    Some(i) => if i < self.profiles.len() { Some(self.profiles[i].clone()) } else { None },
                    None => None,
                };
                self.profiles = new_profiles;
                let ghost nv = self@.profiles;
                let n = self.profiles.len();
                match old_name {
                    Some(name) => {
                        let found = position_of(&self.profiles, &name);
                        match found {
                            Some(p) => {
                                self.selected_profile = Some(p);
                            },
                            None => {
                                if n > 0 {
                                    let mut note = "[INFO] Profile '".to_owned();
                                    note.append(name.as_str());
                                    note.append("' no longer exists. Switched to '");
                                    note.append(self.profiles[0].as_str());
                                    note.append("'.");
                                    self.log(note);
                                    self.selected_profile = Some(0);
                                } else {
                                    self.selected_profile = None;
                                }
                            },
                        }
                    },
                    None => {
                        self.selected_profile = if n > 0 { Some(0) } else { None };
                    },
                }
                let mut line = "[SUCCESS] Configuration reloaded. ".to_owned();
                crate::text::push_decimal(&mut line, n as u64);
                line.append(" profile(s) available.");
                self.log(line);
                assert(self@ =~= reload_finish(a, rv));
            },
            Err(e) => {
                self.log(text_with("[ERROR] Failed to reload configuration: ", e.as_str()));
                self.log("[INFO] Using previous configuration.".to_owned());
                assert(self@ =~= reload_finish(a, rv));
            },
        }
    }
}


/// Moving down then up returns to the same item, and so does moving up then
/// down; from the last item down goes to the first, and from the first up
/// goes to the last.
pub proof fn lemma_selection_wraps(i: usize, len: nat)
    requires
        i < len <= usize::MAX,
    ensures
        previous_selection(next_selection(Some(i), len), len) == Some(i),
        next_selection(previous_selection(Some(i), len), len) == Some(i),
        i == len - 1 ==> next_selection(Some(i), len) == Some(0usize),
        i == 0 ==> previous_selection(Some(i), len) == Some((len - 1) as usize),
{
}

proof fn lemma_moves_stay_in_range(sel: Option<usize>, len: nat)
    requires
        selection_ok(sel, len),
        len <= usize::MAX,
    ensures
        selection_ok(next_selection(sel, len), len),
        selection_ok(previous_selection(sel, len), len),
{
}

proof fn lemma_position_in_range(s: Seq<Seq<char>>, x: Seq<char>, i: int)
    requires
        s.len() <= usize::MAX,
    ensures
        position_from(s, x, i) matches Some(p) ==> p < s.len() && s[p as int] == x,
    decreases s.len() - i,
{
    if i >= 0 && i < s.len() && s[i] != x {
        lemma_position_in_range(s, x, i + 1);
    }
}

/// The dry-run key is `d`: in restore mode it restores the selected backup
/// as a dry run, and only `r` or Enter restore it for real; in sync mode it
/// syncs the selected profile as a dry run, and only `s` or Enter sync it for
/// real. Whatever the selection, `d` never asks for a change to the disk.
pub proof fn lemma_dry_run_keys(a: AppView)
    requires
        !a.sync_in_progress,
        !a.restore_in_progress,
    ensures
        key_step(a, Key::Char('d')).1 matches CommandView::Restore { dry_run, .. } ==> dry_run,
        key_step(a, Key::Char('d')).1 matches CommandView::Sync { dry_run, .. } ==> dry_run,
        !(key_step(a, Key::Char('d')).1 is DeleteBackup),
        a.selected_backup matches Some(i) ==> (a.mode == AppMode::Restore && i < a.backups.len() ==> {
            &&& key_step(a, Key::Char('d')).1 == (CommandView::Restore { backup: a.backups[i as int], dry_run: true })
            &&& key_step(a, Key::Char('d')).0.logs.last() == "Starting Restore Dry Run..."@
            &&& key_step(a, Key::Char('r')).1 == (CommandView::Restore { backup: a.backups[i as int], dry_run: false })
            &&& key_step(a, Key::Enter).1 == (CommandView::Restore { backup: a.backups[i as int], dry_run: false })
        }),
        a.selected_profile matches Some(i) ==> (a.mode == AppMode::Sync ==> {
            &&& key_step(a, Key::Char('d')).1 == (CommandView::Sync { profile: a.profiles[i as int], dry_run: true })
            &&& key_step(a, Key::Char('d')).0.logs.last() == "Starting Dry Run..."@
            &&& key_step(a, Key::Char('s')).1 == (CommandView::Sync { profile: a.profiles[i as int], dry_run: false })
            &&& key_step(a, Key::Enter).1 == (CommandView::Sync { profile: a.profiles[i as int], dry_run: false })
        }),
{
}

/// While a sync or a restore runs, keys change nothing and start nothing.
pub proof fn lemma_keys_ignored_while_busy(a: AppView, key: Key)
    requires
        a.sync_in_progress || a.restore_in_progress,
    ensures
        key_step(a, key) == (a, CommandView::Nothing),
{
}

/// Every selection keeps pointing into its list, whatever key is pressed.
pub proof fn lemma_keys_keep_selections_valid(a: AppView, key: Key)
    requires
        a.wf(),
        a.profiles.len() <= usize::MAX,
        a.backups.len() <= usize::MAX,
        a.diffs.len() <= usize::MAX,
    ensures
        key_step(a, key).0.wf(),
{
    lemma_moves_stay_in_range(a.selected_profile, a.profiles.len());
    lemma_moves_stay_in_range(a.selected_backup, a.backups.len());
    lemma_moves_stay_in_range(a.selected_diff, a.diffs.len());
}

/// Every selection keeps pointing into its list, whatever a worker reports.
pub proof fn lemma_messages_keep_selections_valid(a: AppView, msg: WorkerMessage)
    requires
        a.wf(),
    ensures
        message_step(a, msg).0.wf(),
{
}

/// Every selection keeps pointing into its list after a reload.
pub proof fn lemma_reload_keeps_selections_valid(a: AppView, result: Result<Seq<Seq<char>>, Seq<char>>)
    requires
        a.wf(),
        result matches Ok(new) ==> new.len() <= usize::MAX,
    ensures
        reload_finish(a, result).wf(),
{
    if let Ok(new) = result {
        if let Some(i) = a.selected_profile {
            lemma_position_in_range(new, a.profiles[i as int], 0);
        }
    }
}

/// After a worker's log line the log holds at most `MAX_LOG_MESSAGES` lines,
/// ends with that line, and keeps the newest of the earlier lines in order.
pub proof fn lemma_log_rotation(logs: Seq<Seq<char>>, line: Seq<char>)
    ensures
        rotated_logs(logs, line).len() <= MAX_LOG_MESSAGES || rotated_logs(logs, line).len() == logs.len() + 1,
        logs.len() + 1 > MAX_LOG_MESSAGES ==> rotated_logs(logs, line).len() == MAX_LOG_MESSAGES,
        rotated_logs(logs, line).last() == line,
        rotated_logs(logs, line).is_suffix_of(logs.push(line)),
{
    let all = logs.push(line);
    let r = rotated_logs(logs, line);
    assert(r =~= all.subrange(all.len() - r.len(), all.len() as int));
}


/// A worker message as plain values.
pub enum MessageView {
    Log(Seq<char>),
    SyncComplete,
    RestoreComplete,
    BackupsListed(Seq<BackupEntryView>),
    DiffGenerated(Seq<DiffResultView>),
}

impl View for WorkerMessage {
    type V = MessageView;

    open spec fn view(&self) -> MessageView {
        match self {
            WorkerMessage::Log(l) => MessageView::Log(l@),
            WorkerMessage::SyncComplete => MessageView::SyncComplete,
            WorkerMessage::RestoreComplete => MessageView::RestoreComplete,
            WorkerMessage::BackupsListed(b) => MessageView::BackupsListed(b@.map_values(|e: BackupEntry| e@)),
            WorkerMessage::DiffGenerated(d) => MessageView::DiffGenerated(d@.map_values(|r: DiffResult| r@)),
        }
    }
}

/// The log lines of an operation's result, or its error as one fatal line.
pub open spec fn outcome_lines(result: Result<Seq<Seq<char>>, ManagerError>) -> Seq<MessageView> {
    match result {
        Ok(lines) => lines.map_values(|l: Seq<char>| MessageView::Log(l)),
        Err(e) => seq![MessageView::Log("[FATAL ERROR] "@ + error_message(e))],
    }
}

/// Log lines as plain values.
pub open spec fn lines_result(r: Result<Vec<String>, ManagerError>) -> Result<Seq<Seq<char>>, ManagerError> {
    match r {
        Ok(v) => Ok(v@.map_values(|s: String| s@)),
        Err(e) => Err(e),
    }
}

fn error_line(prefix: &str, e: &ManagerError) -> (m: WorkerMessage)
    ensures
        m@ == MessageView::Log(prefix@ + error_message(*e)),
{
    let mut line = prefix.to_owned();
    let detail = e.message();
    line.append(detail.as_str());
    WorkerMessage::Log(line)
}

fn push_outcome(out: &mut Vec<WorkerMessage>, result: Result<Vec<String>, ManagerError>)
    ensures
        final(out)@.map_values(|m: WorkerMessage| m@) == old(out)@.map_values(|m: WorkerMessage| m@)
            + outcome_lines(lines_result(result)),
{
    let ghost start = out@.map_values(|m: WorkerMessage| m@);
    let ghost rv = lines_result(result);
    match result {
        Ok(lines) => {
            let ghost lv = lines@.map_values(|s: String| s@);
            let n = lines.len();
            for k in 0..n
                invariant
                    n == lines@.len(),
                    lv == lines@.map_values(|s: String| s@),
                    out@.map_values(|m: WorkerMessage| m@) == start + lv.take(k as int).map_values(|l: Seq<char>| MessageView::Log(l)),
            {
                let ghost before = out@.map_values(|m: WorkerMessage| m@);
                out.push(WorkerMessage::Log(lines[k].clone()));
                proof {
                    assert(out@.map_values(|m: WorkerMessage| m@) =~= before.push(MessageView::Log(lv[k as int])));
                    assert(lv.take(k + 1).map_values(|l: Seq<char>| MessageView::Log(l))
                        =~= lv.take(k as int).map_values(|l: Seq<char>| MessageView::Log(l)).push(MessageView::Log(lv[k as int])));
                }
            }
            assert(lv.take(n as int) =~= lv);
        },
        Err(e) => {
            out.push(error_line("[FATAL ERROR] ", &e));
            assert(out@.map_values(|m: WorkerMessage| m@) =~= start + outcome_lines(rv));
        },
    }
}

/// What a sync worker reports: its log lines, or its error as a fatal line;
/// then that it is done.
pub fn messages_after_sync(result: Result<Vec<String>, ManagerError>) -> (r: Vec<WorkerMessage>)
    ensures
        r@.map_values(|m: WorkerMessage| m@) == outcome_lines(lines_result(result)).push(MessageView::SyncComplete),
{
    let mut out: Vec<WorkerMessage> = Vec::new();
    push_outcome(&mut out, result);
    out.push(WorkerMessage::SyncComplete);
    assert(out@.map_values(|m: WorkerMessage| m@) =~= outcome_lines(lines_result(result)).push(MessageView::SyncComplete));
    out
}

/// What a restore worker reports: its log lines, or its error as a fatal
/// line; then that it is done.
pub fn messages_after_restore(result: Result<Vec<String>, ManagerError>) -> (r: Vec<WorkerMessage>)
    ensures
        r@.map_values(|m: WorkerMessage| m@) == outcome_lines(lines_result(result)).push(MessageView::RestoreComplete),
{
    let mut out: Vec<WorkerMessage> = Vec::new();
    push_outcome(&mut out, result);
    out.push(WorkerMessage::RestoreComplete);
    assert(out@.map_values(|m: WorkerMessage| m@) =~= outcome_lines(lines_result(result)).push(MessageView::RestoreComplete));
    out
}

/// What a worker listing backups reports: the backups; or the error, then
/// an empty list.
pub fn messages_after_listing(result: Result<Vec<BackupEntry>, ManagerError>) -> (r: Vec<WorkerMessage>)
    ensures
        result matches Ok(b) ==> r@.map_values(|m: WorkerMessage| m@) == seq![
            MessageView::BackupsListed(b@.map_values(|e: BackupEntry| e@)),
        ],
        result matches Err(e) ==> r@.map_values(|m: WorkerMessage| m@) == seq![
            MessageView::Log("[ERROR] Failed to list backups: "@ + error_message(e)),
            MessageView::BackupsListed(seq![]),
        ],
{
    let mut out: Vec<WorkerMessage> = Vec::new();
    match result {
        Ok(b) => {
            let ghost bv = b@.map_values(|e: BackupEntry| e@);
            out.push(WorkerMessage::BackupsListed(b));
            assert(out@.map_values(|m: WorkerMessage| m@) =~= seq![MessageView::BackupsListed(bv)]);
        },
        Err(e) => {
            let ghost msg = "[ERROR] Failed to list backups: "@ + error_message(e);
            out.push(error_line("[ERROR] Failed to list backups: ", &e));
            let none: Vec<BackupEntry> = Vec::new();
            assert(none@.map_values(|e: BackupEntry| e@) =~= Seq::<BackupEntryView>::empty());
            out.push(WorkerMessage::BackupsListed(none));
            assert(out@.map_values(|m: WorkerMessage| m@) =~= seq![
                MessageView::Log(msg),
                MessageView::BackupsListed(seq![]),
            ]);
        },
    }
    out
}

/// What a worker deleting a backup reports: that it is deleted, or why not;
/// then the backups listed again, or why they could not be.
pub fn messages_after_delete(deleted: Result<(), ManagerError>, listed: Result<Vec<BackupEntry>, ManagerError>) -> (r: Vec<WorkerMessage>)
    ensures
        r@.len() == 2,
        deleted is Ok ==> r@[0]@ == MessageView::Log("[SUCCESS] Backup deleted"@),
        deleted matches Err(e) ==> r@[0]@ == MessageView::Log("[ERROR] Failed to delete backup: "@ + error_message(e)),
        listed matches Ok(b) ==> r@[1]@ == MessageView::BackupsListed(b@.map_values(|e: BackupEntry| e@)),
        listed matches Err(e) ==> r@[1]@ == MessageView::Log("[ERROR] Failed to refresh backup list: "@ + error_message(e)),
{
    let mut out: Vec<WorkerMessage> = Vec::new();
    match deleted {
        Ok(()) => out.push(WorkerMessage::Log("[SUCCESS] Backup deleted".to_owned())),
        Err(e) => out.push(error_line("[ERROR] Failed to delete backup: ", &e)),
    }
    match listed {
        Ok(b) => out.push(WorkerMessage::BackupsListed(b)),
        Err(e) => out.push(error_line("[ERROR] Failed to refresh backup list: ", &e)),
    }
    out
}

/// What a worker generating a diff preview reports: the diffs; or the error,
/// then no diffs.
pub fn messages_after_preview(result: Result<Vec<DiffResult>, ManagerError>) -> (r: Vec<WorkerMessage>)
    ensures
        result matches Ok(d) ==> r@.len() == 1 && r@[0]@ == MessageView::DiffGenerated(d@.map_values(|x: DiffResult| x@)),
        result matches Err(e) ==> r@.len() == 2 && r@[0]@ == MessageView::Log("[ERROR] Failed to generate diff: "@ + error_message(e))
            && r@[1]@ == MessageView::DiffGenerated(seq![]),
{
    let mut out: Vec<WorkerMessage> = Vec::new();
    match result {
        Ok(d) => out.push(WorkerMessage::DiffGenerated(d)),
        Err(e) => {
            out.push(error_line("[ERROR] Failed to generate diff: ", &e));
            let none: Vec<DiffResult> = Vec::new();
            assert(none@.map_values(|x: DiffResult| x@) =~= Seq::<DiffResultView>::empty());
            out.push(WorkerMessage::DiffGenerated(none));
        },
    }
    out
}

} // verus!
