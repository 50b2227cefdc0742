//! The dotfile manager: a validated configuration with its directories
//! resolved, and the plans of its operations on the file system.

use vstd::prelude::*;
use crate::config::{Config, ConfigView, LinkView, validation_error};
use crate::diff::{diff_outcome, generate_diff, result_target, DiffObservation, DiffResult};
use crate::error::ManagerError;
use crate::path::{join, path_parent, path_file_name, path_equal, path_strip_prefix};
use crate::restore::{backup_name, backup_parse, parsed_view, BackupEntry, BackupEntryView, split_backup_name};
use crate::stamp::{naive_parse_ok, STAMP_FORMAT};
use crate::sort::{sort_by_insertion, insert_by, transitive, irreflexive, ordered_by};

verus! {

/// A path that starts with the home directory: `~` alone or `~/...`.
pub open spec fn starts_at_home(p: Seq<char>) -> bool {
    p.len() > 0 && p[0] == '~' && (p.len() == 1 || p[1] == '/')
}

/// What tilde expansion may give for `p`: `p` unchanged when it does not start
/// at home; otherwise the home directory followed by the rest of `p`, or `p`
/// unchanged when the home directory is unknown.
pub open spec fn tilde_expansion(p: Seq<char>, e: Seq<char>) -> bool {
    if starts_at_home(p) {
        e == p || exists|home: Seq<char>| e == home + p.skip(1)
    } else {
        e == p
    }
}

/// `shellexpand::path::tilde` of shellexpand, on Unix. It replaces a leading
/// `~` (alone or before `/`) by the home directory of the process, when it is
/// known, and leaves every other path unchanged; the path is then turned into
/// text lossily, so bytes of the home directory that are not UTF-8 become
/// U+FFFD. The home directory comes from the environment, so the contract
/// claims only what holds of every home directory.
#[verifier::external_body]
fn expand_tilde(p: &str) -> (r: String)
    ensures
        tilde_expansion(p@, r@),
{
    shellexpand::path::tilde(std::path::Path::new(p)).to_string_lossy().into_owned()
}

/// `r` is `p` resolved against `base`: tilde-expanded, then joined to `base`
/// unless already absolute.
pub open spec fn resolved(base: Seq<char>, p: Seq<char>, r: Seq<char>) -> bool {
    exists|e: Seq<char>| tilde_expansion(p, e) && r == join(base, e)
}

/// Lexicographic order on strings by code point, as `Ord` on `String` orders
/// them: `a` goes before `b`.
pub open spec fn chars_before(a: Seq<char>, b: Seq<char>) -> bool
    decreases a.len(),
{
    if b.len() == 0 {
        false
    } else if a.len() == 0 {
        true
    } else if (a[0] as u32) < (b[0] as u32) {
        true
    } else if a[0] == b[0] {
        chars_before(a.drop_first(), b.drop_first())
    } else {
        false
    }
}

/// The order of profile names.
pub open spec fn name_order() -> spec_fn(Seq<char>, Seq<char>) -> bool {
    |a: Seq<char>, b: Seq<char>| chars_before(a, b)
}

proof fn lemma_chars_before_transitive(a: Seq<char>, b: Seq<char>, c: Seq<char>)
    requires
        chars_before(a, b),
        chars_before(b, c),
    ensures
        chars_before(a, c),
    decreases a.len(),
{
    if a.len() > 0 && a[0] == b[0] && b[0] == c[0] {
        lemma_chars_before_transitive(a.drop_first(), b.drop_first(), c.drop_first());
    }
}

proof fn lemma_chars_before_irreflexive(a: Seq<char>)
    ensures
        !chars_before(a, a),
    decreases a.len(),
{
    if a.len() > 0 {
        lemma_chars_before_irreflexive(a.drop_first());
    }
}

/// The order of names is the lexicographic order of their code points, as
/// `String`'s `Ord` gives it: `a` goes before `b` exactly when, after a
/// common beginning of length `i`, either `a` ends while `b` goes on, or
/// `a`'s next character has the smaller code point.
pub proof fn lemma_name_order_is_lexicographic(a: Seq<char>, b: Seq<char>)
    ensures
        chars_before(a, b) <==> exists|i: int|
            0 <= i <= a.len() && i < b.len() && #[trigger] a.take(i) == b.take(i) && (i == a.len() || (a[i] as u32)
                < (b[i] as u32)),
    decreases a.len(),
{
    if b.len() == 0 {
    } else if a.len() == 0 {
        assert(a.take(0) =~= b.take(0));
    } else if (a[0] as u32) < (b[0] as u32) {
        assert(a.take(0) =~= b.take(0));
    } else if a[0] == b[0] {
        let a1 = a.drop_first();
        let b1 = b.drop_first();
        lemma_name_order_is_lexicographic(a1, b1);
        if chars_before(a, b) {
            let j = choose|j: int|
                0 <= j <= a1.len() && j < b1.len() && #[trigger] a1.take(j) == b1.take(j) && (j == a1.len() || (a1[j] as u32)
                    < (b1[j] as u32));
            assert(a.take(j + 1) =~= seq![a[0]] + a1.take(j));
            assert(b.take(j + 1) =~= seq![b[0]] + b1.take(j));
            assert(a.take(j + 1) == b.take(j + 1));
        }
        if exists|i: int|
            0 <= i <= a.len() && i < b.len() && #[trigger] a.take(i) == b.take(i) && (i == a.len() || (a[i] as u32)
                < (b[i] as u32)) {
            let i = choose|i: int|
                0 <= i <= a.len() && i < b.len() && #[trigger] a.take(i) == b.take(i) && (i == a.len() || (a[i] as u32)
                    < (b[i] as u32));
            assert(i >= 1);
            assert(a1.take(i - 1) =~= a.take(i).drop_first());
            assert(b1.take(i - 1) =~= b.take(i).drop_first());
            assert(i - 1 == a1.len() || (a1[i - 1] as u32) < (b1[i - 1] as u32));
        }
    } else {
        if exists|i: int|
            0 <= i <= a.len() && i < b.len() && #[trigger] a.take(i) == b.take(i) && (i == a.len() || (a[i] as u32)
                < (b[i] as u32)) {
            let i = choose|i: int|
                0 <= i <= a.len() && i < b.len() && #[trigger] a.take(i) == b.take(i) && (i == a.len() || (a[i] as u32)
                    < (b[i] as u32));
            if i >= 1 {
                assert(a.take(i)[0] == b.take(i)[0]);
            }
        }
    }
}

/// A name goes before every longer name that begins with it, and never
/// after it.
pub proof fn lemma_prefix_goes_first(a: Seq<char>, s: Seq<char>)
    requires
        s.len() > 0,
    ensures
        chars_before(a, a + s),
        !chars_before(a + s, a),
{
    lemma_name_order_is_lexicographic(a, a + s);
    assert((a + s).take(a.len() as int) =~= a.take(a.len() as int));
    lemma_name_order_is_lexicographic(a + s, a);
}

/// The order of profile names is a strict order.
pub proof fn lemma_name_order_strict()
    ensures
        transitive(name_order()),
        irreflexive(name_order()),
{
    assert forall|a: Seq<char>, b: Seq<char>, c: Seq<char>|
        #[trigger] name_order()(a, b) && #[trigger] name_order()(b, c) implies name_order()(a, c) by {
        lemma_chars_before_transitive(a, b, c);
    }
    assert forall|a: Seq<char>| !#[trigger] name_order()(a, a) by {
        lemma_chars_before_irreflexive(a);
    }
}

/// Whether `a` goes before `b` in the order of names.
fn chars_less(a: &[char], b: &[char]) -> (r: bool)
    ensures
        r == chars_before(a@, b@),
{
    let mut i: usize = 0;
    assert(a@.skip(0) =~= a@ && b@.skip(0) =~= b@);
    while i < a.len() && i < b.len() && a[i] == b[i]
        invariant
            i <= a@.len(),
            i <= b@.len(),
            chars_before(a@, b@) == chars_before(a@.skip(i as int), b@.skip(i as int)),
        decreases a.len() - i,
    {
        assert(a@.skip(i as int).drop_first() =~= a@.skip(i + 1));
        assert(b@.skip(i as int).drop_first() =~= b@.skip(i + 1));
        i = i + 1;
    }
    if i == b.len() {
        false
    } else if i == a.len() {
        true
    } else {
        assert(a@.skip(i as int)[0] == a@[i as int] && b@.skip(i as int)[0] == b@[i as int]);
        (a[i] as u32) < (b[i] as u32)
    }
}

/// The manager: its configuration and the directories resolved from it.
pub struct DotfileManager {
    pub config: Config,
    /// The repository of dotfiles.
    pub repo_path: String,
    /// Where backups go.
    pub backup_path: String,
    /// The directory of the configuration file, against which relative paths
    /// of the configuration are resolved.
    pub config_dir: String,
}

/// The directory of a configuration file: its parent, or `.` when it has none.
pub open spec fn config_dir_of(config_path: Seq<char>) -> Seq<char> {
    match path_parent(config_path) {
        Some(d) => d,
        None => "."@,
    }
}

impl DotfileManager {
    /// Resolves `p` against `base`: expands a leading `~` to the home
    /// directory, then joins the result to `base` unless it is absolute.
    pub fn resolve_path(base: &str, p: &str) -> (r: String)
        ensures
            resolved(base@, p@, r@),
    {
        let expanded = expand_tilde(p);
        let r = crate::path::path_join(base, expanded.as_str());
        assert(tilde_expansion(p@, expanded@) && r@ == join(base@, expanded@));
        r
    }

    /// Makes a manager from a parsed configuration read from `config_path`
    /// (whose profiles, as read, form a map from names): fails with the
    /// validation message when the configuration is not valid; otherwise
    /// resolves the repository and the backup directory against the directory
    /// of the configuration file.
    pub fn new(config: Config, config_path: &str) -> (r: Result<DotfileManager, ManagerError>)
        requires
            config@.names_unique(),
        ensures
            validation_error(config@) matches Some(m) ==> (r matches Err(
                ManagerError::ConfigValidation(e),
            ) && e@ == m),
            validation_error(config@) is None ==> (r matches Ok(mgr) && {
                &&& mgr.config@ == config@
                &&& mgr.config_dir@ == config_dir_of(config_path@)
                &&& resolved(mgr.config_dir@, config@.repo_dir, mgr.repo_path@)
                &&& resolved(mgr.config_dir@, config@.backup_dir, mgr.backup_path@)
            }),
    {
        if let Err(e) = config.validate() {
            return Err(ManagerError::ConfigValidation(e));
        }
        let config_dir = match crate::path::parent(config_path) {
            Some(d) => d,
            None => ".".to_owned(),
        };
        let repo_path = Self::resolve_path(config_dir.as_str(), config.settings.repo_dir.as_str());
        let backup_path = Self::resolve_path(config_dir.as_str(), config.settings.backup_dir.as_str());
        Ok(DotfileManager { config, repo_path, backup_path, config_dir })
    }

    /// The names of the profiles, sorted; each once when no name occurs twice
    /// in the configuration.
    pub fn get_profiles(&self) -> (r: Vec<String>)
        ensures
            r@.map_values(|s: String| s@) == sort_by_insertion(self.config@.names(), name_order()),
            ordered_by(r@.map_values(|s: String| s@), name_order()),
            r@.map_values(|s: String| s@).to_multiset() == self.config@.names().to_multiset(),
            self.config@.names_unique() ==> r@.map_values(|s: String| s@).no_duplicates(),
    {
        proof {
            lemma_name_order_strict();
            crate::sort::lemma_sort_by_insertion(self.config@.names(), name_order());
            if self.config@.names_unique() {
                lemma_profiles_listed_sorted(self.config@);
            }
        }
        let n = self.config.profiles.len();
        let ghost names = self.config@.names();
        let mut r: Vec<String> = Vec::new();
        let mut rc: Vec<Vec<char>> = Vec::new();
        for i in 0..n
            invariant
                n == self.config.profiles@.len(),
                names == self.config@.names(),
                names.len() == n,
                r@.map_values(|s: String| s@) == sort_by_insertion(names.take(i as int), name_order()),
                rc@.len() == r@.len(),
                forall|k: int| 0 <= k < rc@.len() ==> #[trigger] rc@[k]@ == r@[k]@,
        {
            let x = self.config.profiles[i].0.clone();
            let xc = crate::text::chars_of(x.as_str());
            let mut p: usize = 0;
            while p < rc.len() && !chars_less(&xc, &rc[p])
                invariant
                    p <= rc@.len(),
                    xc@ == x@,
                    rc@.len() == r@.len(),
                    forall|k: int| 0 <= k < rc@.len() ==> #[trigger] rc@[k]@ == r@[k]@,
                    forall|k: int| 0 <= k < p ==> !chars_before(x@, #[trigger] rc@[k]@),
                decreases rc.len() - p,
            {
                p = p + 1;
            }
            let ghost before = r@.map_values(|s: String| s@);
            let ghost rc0 = rc@;
            let ghost r0 = r@;
            proof {
                assert(names[i as int] == x@);
                assert forall|k: int| 0 <= k < p implies !name_order()(x@, #[trigger] before[k]) by {
                    assert(rc@[k]@ == r@[k]@);
                }
                if p < rc@.len() {
                    assert(rc@[p as int]@ == before[p as int]);
                }
                crate::sort::lemma_insert_by_is_insert(before, x@, name_order(), p as int);
                assert(names.take(i + 1).drop_last() =~= names.take(i as int));
            }
            r.insert(p, x);
            rc.insert(p, xc);
            proof {
                assert(r@.map_values(|s: String| s@) =~= before.insert(p as int, x@));
                assert forall|k: int| 0 <= k < rc@.len() implies #[trigger] rc@[k]@ == r@[k]@ by {
                    if k < p {
                        assert(rc@[k] == rc0[k] && r@[k] == r0[k]);
                    } else if k > p {
                        assert(rc@[k] == rc0[k - 1] && r@[k] == r0[k - 1]);
                    }
                }
            }
        }
        assert(names.take(n as int) =~= names);
        r
    }
}


/// The index of the first profile named `name`, from index `i` on.
pub open spec fn first_named(profiles: Seq<(Seq<char>, Seq<LinkView>)>, name: Seq<char>, i: int) -> Option<int>
    decreases profiles.len() - i,
{
    if i < 0 || i >= profiles.len() {
        None
    } else if profiles[i].0 == name {
        Some(i)
    } else {
        first_named(profiles, name, i + 1)
    }
}

/// The links of the first profile named `name`, if there is one.
pub open spec fn profile_links(c: ConfigView, name: Seq<char>) -> Option<Seq<LinkView>> {
    match first_named(c.profiles, name, 0) {
        Some(i) => Some(c.profiles[i].1),
        None => None,
    }
}

/// A link of a profile, with its paths resolved.
pub struct SyncJob {
    /// The source file, resolved against the repository.
    pub source: String,
    /// The target, resolved against the directory of the configuration.
    pub target: String,
    /// The source as the configuration writes it.
    pub link_source: String,
}

/// A sync job as plain values.
pub struct SyncJobView {
    pub source: Seq<char>,
    pub target: Seq<char>,
    pub link_source: Seq<char>,
}

impl View for SyncJob {
    type V = SyncJobView;

    open spec fn view(&self) -> SyncJobView {
        SyncJobView { source: self.source@, target: self.target@, link_source: self.link_source@ }
    }
}

impl SyncJob {
    /// A copy of this job.
    pub fn duplicate(&self) -> (r: SyncJob)
        ensures
            r@ == self@,
    {
        SyncJob {
            source: self.source.clone(),
            target: self.target.clone(),
            link_source: self.link_source.clone(),
        }
    }
}

/// `job` is `link` resolved: the source against `repo`, the target against
/// `config_dir`.
pub open spec fn job_of_link(repo: Seq<char>, config_dir: Seq<char>, link: LinkView, job: SyncJobView) -> bool {
    &&& resolved(repo, link.source, job.source)
    &&& resolved(config_dir, link.target, job.target)
    &&& job.link_source == link.source
}

/// One change to the file system, in the order in which a plan lists them.
pub enum FsAction {
    /// Create a directory and its missing parents.
    CreateDirAll { path: String },
    /// Remove a file; a failure is ignored.
    RemoveFileQuietly { path: String },
    /// Move a file; a failure is ignored.
    RenameQuietly { from: String, to: String },
    /// Make `target` a symbolic link to `source`.
    CreateSymlink { source: String, target: String },
    /// Remove a file.
    RemoveFile { path: String },
    /// Move a file.
    Rename { from: String, to: String },
    /// Copy a file.
    Copy { from: String, to: String },
}

/// A file-system action as plain values.
pub enum FsActionView {
    CreateDirAll { path: Seq<char> },
    RemoveFileQuietly { path: Seq<char> },
    RenameQuietly { from: Seq<char>, to: Seq<char> },
    CreateSymlink { source: Seq<char>, target: Seq<char> },
    RemoveFile { path: Seq<char> },
    Rename { from: Seq<char>, to: Seq<char> },
    Copy { from: Seq<char>, to: Seq<char> },
}

impl View for FsAction {
    type V = FsActionView;

    open spec fn view(&self) -> FsActionView {
        match self {
            FsAction::CreateDirAll { path } => FsActionView::CreateDirAll { path: path@ },
            FsAction::RemoveFileQuietly { path } => FsActionView::RemoveFileQuietly { path: path@ },
            FsAction::RenameQuietly { from, to } => FsActionView::RenameQuietly { from: from@, to: to@ },
            FsAction::CreateSymlink { source, target } => FsActionView::CreateSymlink {
                source: source@,
                target: target@,
            },
            FsAction::RemoveFile { path } => FsActionView::RemoveFile { path: path@ },
            FsAction::Rename { from, to } => FsActionView::Rename { from: from@, to: to@ },
            FsAction::Copy { from, to } => FsActionView::Copy { from: from@, to: to@ },
        }
    }
}

/// What the file system showed of a link just before it is synced.
pub struct LinkObservation {
    /// Whether the source file exists.
    pub source_exists: bool,
    /// Whether the target exists (following links).
    pub target_exists: bool,
    /// Where the target points, when it is a symbolic link.
    pub target_link: Option<String>,
    /// Whether the parent directory of the target exists.
    pub parent_exists: bool,
}

/// The logs to show and the actions to take for one link, in order.
pub struct Plan {
    pub logs: Vec<String>,
    pub actions: Vec<FsAction>,
}

/// A plan as plain values.
pub struct PlanView {
    pub logs: Seq<Seq<char>>,
    pub actions: Seq<FsActionView>,
}

impl View for Plan {
    type V = PlanView;

    open spec fn view(&self) -> PlanView {
        PlanView {
            logs: self.logs@.map_values(|l: String| l@),
            actions: self.actions@.map_values(|a: FsAction| a@),
        }
    }
}

/// The source as the sync log shows it: relative to the repository when it
/// lies inside it.
pub open spec fn shown_source(repo: Seq<char>, source: Seq<char>) -> Seq<char> {
    match path_strip_prefix(source, repo) {
        Some(rest) => rest,
        None => source,
    }
}

/// Where an existing file at `target` is moved before it is replaced.
pub open spec fn backup_destination(backup_dir: Seq<char>, target: Seq<char>, stamp: Seq<char>) -> Option<Seq<char>> {
    match path_file_name(target) {
        Some(n) => Some(join(backup_dir, backup_name(n, stamp))),
        None => None,
    }
}

/// The message when a target has no file name to back it up under.
pub open spec fn no_file_name_message(target: Seq<char>) -> Seq<char> {
    "Target path has no filename: "@ + target
}

/// What is done about an existing target before linking: the logs, the
/// actions, and whether the link is still to be made; or the error.
pub open spec fn target_step(
    backup_dir: Seq<char>,
    job: SyncJobView,
    obs: LinkObservation,
    dry_run: bool,
    stamp: Seq<char>,
) -> Result<(Seq<Seq<char>>, Seq<FsActionView>, bool), Seq<char>> {
    if !obs.target_exists {
        Ok((seq![], seq![], true))
    } else {
        match obs.target_link {
            Some(l) => if path_equal(l@, job.source) {
                Ok((seq!["  [SKIP] Link already correct: "@ + job.target], seq![], false))
            } else {
                Ok((
                    seq!["  [BACKUP] Removing incorrect symlink: "@ + job.target],
                    if dry_run { seq![] } else { seq![FsActionView::RemoveFileQuietly { path: job.target }] },
                    true,
                ))
            },
            None => match backup_destination(backup_dir, job.target, stamp) {
                None => Err(no_file_name_message(job.target)),
                Some(b) => Ok((
                    seq!["  [BACKUP] Moving existing file: "@ + job.target + " -> "@ + b],
                    if dry_run { seq![] } else { seq![FsActionView::RenameQuietly { from: job.target, to: b }] },
                    true,
                )),
            },
        }
    }
}

/// The actions that make the link: the parent directory when it is missing,
/// then the symbolic link.
pub open spec fn link_actions(job: SyncJobView, obs: LinkObservation) -> Seq<FsActionView> {
    let make_parent = match path_parent(job.target) {
        Some(p) => if obs.parent_exists { seq![] } else { seq![FsActionView::CreateDirAll { path: p }] },
        None => seq![],
    };
    make_parent + seq![FsActionView::CreateSymlink { source: job.source, target: job.target }]
}

/// The plan for one link of a sync, from what was observed of it; or the
/// message of the error that stops the sync.
pub open spec fn link_plan(
    repo: Seq<char>,
    backup_dir: Seq<char>,
    job: SyncJobView,
    obs: LinkObservation,
    dry_run: bool,
    stamp: Seq<char>,
) -> Result<PlanView, Seq<char>> {
    let processing = "Processing: "@ + shown_source(repo, job.source) + " -> "@ + job.target;
    if !obs.source_exists {
        Ok(PlanView {
            logs: seq![
                processing,
                "  [WARN] Source file does not exist: "@ + job.link_source,
                "         Expected at: "@ + job.source,
            ],
            actions: seq![],
        })
    } else {
        match target_step(backup_dir, job, obs, dry_run, stamp) {
            Err(m) => Err(m),
            Ok((logs, actions, needs_link)) => if needs_link {
                Ok(PlanView {
                    logs: seq![processing] + logs + seq![
                        "  [LINK] Creating symlink: "@ + job.source + " -> "@ + job.target,
                    ],
                    actions: actions + if dry_run { seq![] } else { link_actions(job, obs) },
                })
            } else {
                Ok(PlanView { logs: seq![processing] + logs, actions })
            },
        }
    }
}

/// The first line of a sync's log.
pub open spec fn sync_header_text(profile_name: Seq<char>, dry_run: bool) -> Seq<char> {
    if dry_run {
        "--- DRY RUN (No changes will be made) ---"@
    } else {
        "--- Executing Sync for profile: "@ + profile_name + " ---"@
    }
}

/// `s` written as `{:?}` writes a `Path`: quoted, with escapes.
pub uninterp spec fn path_debug(s: Seq<char>) -> Seq<char>;

/// `format!("{:?}", Path::new(s))` of std. The contract claims that the text
/// is a function of `s`, named `path_debug`.
#[verifier::external_body]
fn debug_path(s: &str) -> (r: String)
    ensures
        r@ == path_debug(s@),
{
    format!("{:?}", std::path::Path::new(s))
}

fn text2(a: &str, b: &str) -> (r: String)
    ensures
        r@ == a@ + b@,
{
    let mut r = a.to_owned();
    r.append(b);
    r
}

fn text3(a: &str, b: &str, c: &str) -> (r: String)
    ensures
        r@ == a@ + b@ + c@,
{
    let mut r = a.to_owned();
    r.append(b);
    r.append(c);
    r
}

fn text4(a: &str, b: &str, c: &str, d: &str) -> (r: String)
    ensures
        r@ == a@ + b@ + c@ + d@,
{
    let mut r = a.to_owned();
    r.append(b);
    r.append(c);
    r.append(d);
    r
}

impl DotfileManager {
    /// The index of the first profile named `name`.
    fn find_profile(&self, name: &str) -> (r: Option<usize>)
        ensures
            r matches Some(i) ==> first_named(self.config@.profiles, name@, 0) == Some(i as int)
                && i < self.config.profiles@.len(),
            r is None ==> first_named(self.config@.profiles, name@, 0) is None,
    {
        let n = self.config.profiles.len();
        let ghost ps = self.config@.profiles;
        let wanted = name.to_owned();
        for i in 0..n
            invariant
                n == ps.len(),
                ps == self.config@.profiles,
                wanted@ == name@,
                first_named(ps, name@, 0) == first_named(ps, name@, i as int),
        {
            assert(ps[i as int].0 == self.config.profiles@[i as int].0@);
            if self.config.profiles[i].0 == wanted {
                return Some(i);
            }
        }
        None
    }

    /// The links of a profile, resolved: sources against the repository,
    /// targets against the directory of the configuration. Fails when no
    /// profile has that name.
    pub fn sync_jobs(&self, profile_name: &str) -> (r: Result<Vec<SyncJob>, ManagerError>)
        ensures
            profile_links(self.config@, profile_name@) is None ==> (r matches Err(
                ManagerError::ProfileNotFound(n),
            ) && n@ == profile_name@),
            profile_links(self.config@, profile_name@) matches Some(links) ==> (r matches Ok(jobs)
                && jobs@.len() == links.len() && forall|k: int|
                0 <= k < links.len() ==> job_of_link(
                    self.repo_path@,
                    self.config_dir@,
                    links[k],
                    #[trigger] jobs@[k]@,
                )),
    {
        let idx = match self.find_profile(profile_name) {
            Some(i) => i,
            None => return Err(ManagerError::ProfileNotFound(profile_name.to_owned())),
        };
        let links = &self.config.profiles[idx].1.links;
        let ghost lv = self.config@.profiles[idx as int].1;
        let mut jobs: Vec<SyncJob> = Vec::new();
        let n = links.len();
        for k in 0..n
            invariant
                n == links@.len(),
                lv == links@.map_values(|l: crate::config::Link| l@),
                jobs@.len() == k,
                forall|j: int|
                    0 <= j < k ==> job_of_link(
                        self.repo_path@,
                        self.config_dir@,
                        lv[j],
                        #[trigger] jobs@[j]@,
                    ),
        {
            let link = &links[k];
            let source = Self::resolve_path(self.repo_path.as_str(), link.source.as_str());
            let target = Self::resolve_path(self.config_dir.as_str(), link.target.as_str());
            jobs.push(SyncJob { source, target, link_source: link.source.clone() });
        }
        Ok(jobs)
    }

    /// The same resolved links, for a preview of what a sync would change:
    /// each source is compared with its target by `generate_diff` once both
    /// are read. Fails when no profile has that name.
    pub fn preview_diff(&self, profile_name: &str) -> (r: Result<Vec<SyncJob>, ManagerError>)
        ensures
            profile_links(self.config@, profile_name@) is None ==> (r matches Err(
                ManagerError::ProfileNotFound(n),
            ) && n@ == profile_name@),
            profile_links(self.config@, profile_name@) matches Some(links) ==> (r matches Ok(jobs)
                && jobs@.len() == links.len() && forall|k: int|
                0 <= k < links.len() ==> job_of_link(
                    self.repo_path@,
                    self.config_dir@,
                    links[k],
                    #[trigger] jobs@[k]@,
                )),
    {
        self.sync_jobs(profile_name)
    }

    /// The preview of a profile: given the resolved links that
    /// `preview_diff` gives and what was read of each link's source and
    /// target, one result per link, in the order of the links, each as
    /// `generate_diff` gives it.
    pub fn preview_results(jobs: &Vec<SyncJob>, observations: &Vec<DiffObservation>) -> (r: Vec<DiffResult>)
        requires
            observations@.len() == jobs@.len(),
        ensures
            r@.len() == jobs@.len(),
            forall|k: int|
                0 <= k < jobs@.len() ==> (#[trigger] r@[k])@ == diff_outcome(
                    jobs@[k]@.source,
                    jobs@[k]@.target,
                    observations@[k],
                ),
            forall|k: int| 0 <= k < jobs@.len() ==> result_target((#[trigger] r@[k])@) == jobs@[k]@.target,
    {
        let mut r: Vec<DiffResult> = Vec::new();
        let n = jobs.len();
        for k in 0..n
            invariant
                n == jobs@.len(),
                n == observations@.len(),
                r@.len() == k,
                forall|j: int|
                    0 <= j < k ==> (#[trigger] r@[j])@ == diff_outcome(jobs@[j]@.source, jobs@[j]@.target, observations@[j]),
                forall|j: int| 0 <= j < k ==> result_target((#[trigger] r@[j])@) == jobs@[j]@.target,
        {
            let d = generate_diff(jobs[k].source.as_str(), jobs[k].target.as_str(), &observations[k]);
            proof {
                lemma_outcome_target(jobs@[k as int]@.source, jobs@[k as int]@.target, observations@[k as int]);
            }
            r.push(d);
        }
        r
    }

    /// The first line of the log of a sync.
    pub fn sync_header(profile_name: &str, dry_run: bool) -> (r: String)
        ensures
            r@ == sync_header_text(profile_name@, dry_run),
    {
        if dry_run {
            "--- DRY RUN (No changes will be made) ---".to_owned()
        } else {
            text3("--- Executing Sync for profile: ", profile_name, " ---")
        }
    }

    /// The log line once the backup directory exists.
    pub fn backup_dir_log(&self) -> (r: String)
        ensures
            r@ == "Backup directory ensured: "@ + path_debug(self.backup_path@),
    {
        let d = debug_path(self.backup_path.as_str());
        text2("Backup directory ensured: ", d.as_str())
    }

    /// The last line of the log of a sync.
    pub fn sync_footer() -> (r: String)
        ensures
            r@ == "--- Sync Finished ---"@,
    {
        "--- Sync Finished ---".to_owned()
    }

    /// Plans one link of a sync, from what was observed of it just before:
    /// a missing source is only warned about; an existing target is skipped
    /// when it already links to the source, removed when it is another link,
    /// and moved into the backup directory under `name_stamp` otherwise; then
    /// the link is made, with its parent directory when that is missing. A dry
    /// run logs the same and takes no action. Fails when an existing target
    /// that is not a link has no file name.
    pub fn plan_link(&self, job: &SyncJob, obs: &LinkObservation, dry_run: bool, stamp: &str) -> (r: Result<Plan, ManagerError>)
        ensures
            link_plan(self.repo_path@, self.backup_path@, job@, *obs, dry_run, stamp@) matches Ok(p) ==> (r matches Ok(plan) && plan@ == p),
            link_plan(self.repo_path@, self.backup_path@, job@, *obs, dry_run, stamp@) matches Err(m) ==> (r matches Err(
                ManagerError::Io(e),
            ) && e@ == m),
    {
        let shown = match crate::path::strip_prefix(job.source.as_str(), self.repo_path.as_str()) {
            Some(rest) => rest,
            None => job.source.clone(),
        };
        let processing = text4("Processing: ", shown.as_str(), " -> ", job.target.as_str());
        let mut logs: Vec<String> = Vec::new();
        let mut actions: Vec<FsAction> = Vec::new();
        logs.push(processing);
        if !obs.source_exists {
            logs.push(text2("  [WARN] Source file does not exist: ", job.link_source.as_str()));
            logs.push(text2("         Expected at: ", job.source.as_str()));
            let plan = Plan { logs, actions };
            proof {
                assert(plan@.logs =~= link_plan(self.repo_path@, self.backup_path@, job@, *obs, dry_run, stamp@)->Ok_0.logs);
                assert(plan@.actions =~= seq![]);
            }
            return Ok(plan);
        }
        let mut needs_link = true;
        if obs.target_exists {
            match &obs.target_link {
                Some(l) => {
                    if crate::path::paths_equal(l.as_str(), job.source.as_str()) {
                        logs.push(text2("  [SKIP] Link already correct: ", job.target.as_str()));
                        needs_link = false;
                    } else {
                        logs.push(text2("  [BACKUP] Removing incorrect symlink: ", job.target.as_str()));
                        if !dry_run {
                            actions.push(FsAction::RemoveFileQuietly { path: job.target.clone() });
                        }
                    }
                },
                None => {
                    let name = match crate::path::file_name(job.target.as_str()) {
                        Some(n) => n,
                        None => {
                            return Err(ManagerError::Io(text2("Target path has no filename: ", job.target.as_str())));
                        },
                    };
                    let bname = crate::restore::backup_file_name(name.as_str(), stamp);
                    let dest = crate::path::path_join(self.backup_path.as_str(), bname.as_str());
                    logs.push(text4("  [BACKUP] Moving existing file: ", job.target.as_str(), " -> ", dest.as_str()));
                    if !dry_run {
                        actions.push(FsAction::RenameQuietly { from: job.target.clone(), to: dest });
                    }
                },
            }
        }
        let ghost step_actions = actions@.map_values(|a: FsAction| a@);
        if needs_link {
            logs.push(text4("  [LINK] Creating symlink: ", job.source.as_str(), " -> ", job.target.as_str()));
            if !dry_run {
                match crate::path::parent(job.target.as_str()) {
                    Some(p) => {
                        if !obs.parent_exists {
                            actions.push(FsAction::CreateDirAll { path: p });
                        }
                    },
                    None => {},
                }
                actions.push(FsAction::CreateSymlink { source: job.source.clone(), target: job.target.clone() });
            }
        }
        let plan = Plan { logs, actions };
        proof {
            let spec_plan = link_plan(self.repo_path@, self.backup_path@, job@, *obs, dry_run, stamp@)->Ok_0;
            assert(plan@.logs =~= spec_plan.logs);
            assert(plan@.actions =~= spec_plan.actions);
        }
        Ok(plan)
    }
}


/// What was found at the target of a backup just before restoring it.
#[derive(PartialEq, Eq, Structural, Clone, Copy, Debug)]
pub enum TargetKind {
    /// Nothing is there (not even a broken link).
    Missing,
    /// A symbolic link is there.
    Symlink,
    /// A file or directory is there.
    Other,
}

/// What the file system showed of a backup and its target just before restoring.
pub struct RestoreObservation {
    /// Whether the backup file still exists.
    pub backup_exists: bool,
    /// What is at the target.
    pub target: TargetKind,
    /// Whether the parent directory of the target exists.
    pub parent_exists: bool,
}

/// The plan of a restore, from what was observed; or the message of the error
/// that stops it.
pub open spec fn restore_plan(
    backup_dir: Seq<char>,
    backup: BackupEntryView,
    obs: RestoreObservation,
    dry_run: bool,
    stamp: Seq<char>,
) -> Result<PlanView, Seq<char>> {
    let head = seq![
        if dry_run {
            "--- DRY RUN (No changes will be made) ---"@
        } else {
            "--- Restoring backup: "@ + backup.original_name + " ---"@
        },
        "Backup file: "@ + backup.backup_path,
        "Target location: "@ + backup.target_path,
    ];
    let target = backup.target_path;
    if !obs.backup_exists {
        Ok(PlanView { logs: head.push("[ERROR] Backup file no longer exists"@), actions: seq![] })
    } else {
        let first: Result<(Seq<Seq<char>>, Seq<FsActionView>), Seq<char>> = match obs.target {
            TargetKind::Symlink => Ok((
                seq!["[INFO] Target is a symlink, will be removed"@],
                seq![FsActionView::RemoveFile { path: target }],
            )),
            TargetKind::Other => match backup_destination(backup_dir, target, stamp) {
                None => Err(no_file_name_message(target)),
                Some(b) => Ok((
                    seq!["[BACKUP] Backing up existing file: "@ + target + " -> "@ + b],
                    seq![FsActionView::Rename { from: target, to: b }],
                )),
            },
            TargetKind::Missing => Ok((seq!["[INFO] Target does not exist, will be created"@], seq![])),
        };
        match first {
            Err(m) => Err(m),
            Ok((logs1, acts1)) => {
                let (logs2, acts2) = match path_parent(target) {
                    Some(p) => if obs.parent_exists {
                        (seq![], seq![])
                    } else {
                        (
                            seq!["[CREATE] Creating parent directory: "@ + p],
                            seq![FsActionView::CreateDirAll { path: p }],
                        )
                    },
                    None => (seq![], seq![]),
                };
                let logs = head + logs1 + logs2 + seq![
                    "[RESTORE] Copying backup to target: "@ + target,
                    "[CLEANUP] Removing backup file: "@ + backup.backup_path,
                    "--- Restore Finished ---"@,
                ];
                let actions = acts1 + acts2 + seq![
                    FsActionView::Copy { from: backup.backup_path, to: target },
                    FsActionView::RemoveFile { path: backup.backup_path },
                ];
                Ok(PlanView { logs, actions: if dry_run { seq![] } else { actions } })
            },
        }
    }
}

/// A file found in the backup directory: its path, its name and its size.
pub struct BackupFile {
    pub path: String,
    pub name: String,
    pub size: u64,
}

/// The targets of all links of all profiles, profile by profile, in order.
pub open spec fn link_targets(profiles: Seq<(Seq<char>, Seq<LinkView>)>) -> Seq<Seq<char>>
    decreases profiles.len(),
{
    if profiles.len() == 0 {
        seq![]
    } else {
        link_targets(profiles.drop_last()) + profiles.last().1.map_values(|l: LinkView| l.target)
    }
}

/// The first of `targets` whose file name is `name`, else `default`.
pub open spec fn pick_target(targets: Seq<Seq<char>>, name: Seq<char>, default: Seq<char>) -> Seq<char>
    decreases targets.len(),
{
    if targets.len() == 0 {
        default
    } else if path_file_name(targets[0]) == Some(name) {
        targets[0]
    } else {
        pick_target(targets.drop_first(), name, default)
    }
}

/// The order of backups: newer goes first.
pub open spec fn newer_first() -> spec_fn(BackupEntryView, BackupEntryView) -> bool {
    |a: BackupEntryView, b: BackupEntryView| a.timestamp > b.timestamp
}

/// `entry` was read from `file`: its path and size, and the name and a stamp
/// that parses read from its file name.
pub open spec fn entry_from_file(file: BackupFile, entry: BackupEntryView) -> bool {
    &&& entry.backup_path == file.path@
    &&& entry.file_size == file.size
    &&& split_backup_name(file.name@) matches Some((n, s))
    &&& entry.original_name == n
    &&& naive_parse_ok(s, STAMP_FORMAT@)
}

/// Picks where a backup of a file named `name` is restored to: the first of
/// `targets` with that file name, else `default`.
pub fn pick_restore_target(targets: &Vec<String>, name: &str, default: String) -> (r: String)
    ensures
        r@ == pick_target(targets@.map_values(|t: String| t@), name@, default@),
{
    let ghost tv = targets@.map_values(|t: String| t@);
    let n = targets.len();
    let wanted = name.to_owned();
    assert(tv.skip(0) =~= tv);
    for i in 0..n
        invariant
            n == targets@.len(),
            tv == targets@.map_values(|t: String| t@),
            wanted@ == name@,
            pick_target(tv, name@, default@) == pick_target(tv.skip(i as int), name@, default@),
    {
        assert(tv.skip(i as int).drop_first() =~= tv.skip(i + 1));
        assert(tv.skip(i as int)[0] == targets@[i as int]@);
        match crate::path::file_name(targets[i].as_str()) {
            Some(f) => {
                if f == wanted {
                    return targets[i].clone();
                }
            },
            None => {},
        }
    }
    assert(tv.skip(n as int).len() == 0);
    default
}

/// Sorts backups newest first; backups made at the same time keep their order.
pub fn sort_newest_first(entries: Vec<BackupEntry>) -> (r: Vec<BackupEntry>)
    ensures
        r@.map_values(|e: BackupEntry| e@) == sort_by_insertion(
            entries@.map_values(|e: BackupEntry| e@),
            newer_first(),
        ),
{
    let ghost ev = entries@.map_values(|e: BackupEntry| e@);
    assert(ev.len() == entries@.len());
    let mut r: Vec<BackupEntry> = Vec::new();
    let mut rest = entries;
    let total: usize = rest.len();
    let mut taken: usize = 0;
    let mut pending: Vec<BackupEntry> = Vec::new();
    // Move the entries out in order, last first, so that they can be taken by value.
    while rest.len() > 0
        invariant
            pending@.map_values(|e: BackupEntry| e@) + rest@.map_values(|e: BackupEntry| e@).reverse() == ev.reverse(),
        decreases rest.len(),
    {
        let ghost before_p = pending@.map_values(|e: BackupEntry| e@);
        let ghost before_r = rest@.map_values(|e: BackupEntry| e@);
        let e = rest.pop().unwrap();
        pending.push(e);
        proof {
            assert(pending@.map_values(|e: BackupEntry| e@) =~= before_p.push(before_r.last()));
            assert(rest@.map_values(|e: BackupEntry| e@) =~= before_r.drop_last());
            assert(before_r.reverse() =~= seq![before_r.last()] + before_r.drop_last().reverse());
        }
    }
    assert(pending@.map_values(|e: BackupEntry| e@) =~= ev.reverse());
    assert(ev.skip(0) =~= ev);
    assert(ev.take(0) =~= Seq::<BackupEntryView>::empty());
    while pending.len() > 0
        invariant
            taken + pending@.len() == ev.len(),
            ev.len() == total,
            pending@.map_values(|e: BackupEntry| e@) == ev.skip(taken as int).reverse(),
            r@.map_values(|e: BackupEntry| e@) == sort_by_insertion(ev.take(taken as int), newer_first()),
        decreases pending.len(),
    {
        let ghost pv = pending@.map_values(|e: BackupEntry| e@);
        let x = pending.pop().unwrap();
        proof {
            let sk = ev.skip(taken as int);
            assert(pv == sk.reverse());
            assert(pv.len() == sk.len());
            assert(x@ == pv[pv.len() - 1]);
            assert(pv[pv.len() - 1] == sk[0]);
            assert(x@ == ev[taken as int]);
            assert(pending@.map_values(|e: BackupEntry| e@) =~= pv.drop_last());
            assert(pv.drop_last() =~= ev.skip(taken + 1).reverse());
        }
        let mut p: usize = 0;
        while p < r.len() && !(x.timestamp > r[p].timestamp)
            invariant
                p <= r@.len(),
                forall|k: int| 0 <= k < p ==> !(x.timestamp > #[trigger] r@[k].timestamp),
            decreases r.len() - p,
        {
            p = p + 1;
        }
        let ghost before = r@.map_values(|e: BackupEntry| e@);
        proof {
            assert forall|k: int| 0 <= k < p implies !newer_first()(x@, #[trigger] before[k]) by {
                assert(before[k] == r@[k]@);
            }
            if p < r@.len() {
                assert(before[p as int] == r@[p as int]@);
            }
            crate::sort::lemma_insert_by_is_insert(before, x@, newer_first(), p as int);
            assert(ev.take(taken + 1).drop_last() =~= ev.take(taken as int));
        }
        r.insert(p, x);
        proof {
            assert(r@.map_values(|e: BackupEntry| e@) =~= before.insert(p as int, x@));
        }
        taken = taken + 1;
    }
    assert(ev.take(taken as int) =~= ev);
    r
}

impl DotfileManager {
    /// Plans the restore of a backup, from what was observed just before: a
    /// backup that is gone is only reported; a link at the target is removed;
    /// a file at the target is first moved into the backup directory under
    /// `name_stamp`; the parent directory is made when missing; then the
    /// backup is copied to the target and removed. A dry run logs the same and
    /// takes no action. Fails when a file at the target has no file name.
    pub fn restore_backup(&self, backup: &BackupEntry, obs: &RestoreObservation, dry_run: bool, stamp: &str) -> (r: Result<Plan, ManagerError>)
        ensures
            restore_plan(self.backup_path@, backup@, *obs, dry_run, stamp@) matches Ok(p) ==> (r matches Ok(plan) && plan@ == p),
            restore_plan(self.backup_path@, backup@, *obs, dry_run, stamp@) matches Err(m) ==> (r matches Err(
                ManagerError::Io(e),
            ) && e@ == m),
    {
        let target = &backup.target_path;
        let mut logs: Vec<String> = Vec::new();
        let mut actions: Vec<FsAction> = Vec::new();
        if dry_run {
            logs.push("--- DRY RUN (No changes will be made) ---".to_owned());
        } else {
            logs.push(text3("--- Restoring backup: ", backup.original_name.as_str(), " ---"));
        }
        logs.push(text2("Backup file: ", backup.backup_path.as_str()));
        logs.push(text2("Target location: ", target.as_str()));
        if !obs.backup_exists {
            logs.push("[ERROR] Backup file no longer exists".to_owned());
            let plan = Plan { logs, actions };
            proof {
                let sp = restore_plan(self.backup_path@, backup@, *obs, dry_run, stamp@)->Ok_0;
                assert(plan@.logs =~= sp.logs);
                assert(plan@.actions =~= sp.actions);
            }
            return Ok(plan);
        }
        match obs.target {
            TargetKind::Symlink => {
                logs.push("[INFO] Target is a symlink, will be removed".to_owned());
                actions.push(FsAction::RemoveFile { path: target.clone() });
            },
            TargetKind::Other => {
                let name = match crate::path::file_name(target.as_str()) {
                    Some(n) => n,
                    None => {
                        return Err(ManagerError::Io(text2("Target path has no filename: ", target.as_str())));
                    },
                };
                let bname = crate::restore::backup_file_name(name.as_str(), stamp);
                let dest = crate::path::path_join(self.backup_path.as_str(), bname.as_str());
                logs.push(text4("[BACKUP] Backing up existing file: ", target.as_str(), " -> ", dest.as_str()));
                actions.push(FsAction::Rename { from: target.clone(), to: dest });
            },
            TargetKind::Missing => {
                logs.push("[INFO] Target does not exist, will be created".to_owned());
            },
        }
        match crate::path::parent(target.as_str()) {
            Some(p) => {
                if !obs.parent_exists {
                    logs.push(text2("[CREATE] Creating parent directory: ", p.as_str()));
                    actions.push(FsAction::CreateDirAll { path: p });
                }
            },
            None => {},
        }
        logs.push(text2("[RESTORE] Copying backup to target: ", target.as_str()));
        actions.push(FsAction::Copy { from: backup.backup_path.clone(), to: target.clone() });
        logs.push(text2("[CLEANUP] Removing backup file: ", backup.backup_path.as_str()));
        actions.push(FsAction::RemoveFile { path: backup.backup_path.clone() });
        logs.push("--- Restore Finished ---".to_owned());
        if dry_run {
            actions = Vec::new();
        }
        let plan = Plan { logs, actions };
        proof {
            let sp = restore_plan(self.backup_path@, backup@, *obs, dry_run, stamp@)->Ok_0;
            assert(plan@.logs =~= sp.logs);
            assert(plan@.actions =~= sp.actions);
        }
        Ok(plan)
    }
}


/// `r` is where a backup of a file named `name` is restored to: the first
/// target of the links (resolved) with that file name, else `name` in the home
/// directory.
pub open spec fn restore_target_of(c: ConfigView, config_dir: Seq<char>, name: Seq<char>, r: Seq<char>) -> bool {
    exists|ts: Seq<Seq<char>>, home: Seq<char>|
        {
            &&& ts.len() == link_targets(c.profiles).len()
            &&& (forall|j: int|
                0 <= j < ts.len() ==> resolved(config_dir, link_targets(c.profiles)[j], #[trigger] ts[j]))
            &&& tilde_expansion("~"@, home)
            &&& r == pick_target(ts, name, join(home, name))
        }
}

/// Each of `entries` was read from one of `files`, and is restored to where a
/// backup of its name goes.
pub open spec fn entries_read_from(c: ConfigView, config_dir: Seq<char>, files: Seq<BackupFile>, entries: Seq<BackupEntryView>) -> bool {
    forall|k: int|
        0 <= k < entries.len() ==> exists|j: int|
            0 <= j < files.len() && entry_from_file(files[j], #[trigger] entries[k])
                && restore_target_of(c, config_dir, entries[k].original_name, entries[k].target_path)
}

/// What reading the names of `files` gave: one outcome per file, each one
/// that its name may give.
pub open spec fn files_parsed(files: Seq<BackupFile>, outcomes: Seq<Option<(Seq<char>, int)>>) -> bool {
    &&& outcomes.len() == files.len()
    &&& forall|k: int| 0 <= k < files.len() ==> backup_parse(files[k].name@, #[trigger] outcomes[k])
}

/// The indices of the outcomes that hold something, in order.
pub open spec fn picked(outcomes: Seq<Option<(Seq<char>, int)>>) -> Seq<int>
    decreases outcomes.len(),
{
    if outcomes.len() == 0 {
        seq![]
    } else {
        picked(outcomes.drop_last()) + if outcomes.last() is Some {
            seq![outcomes.len() - 1]
        } else {
            seq![]
        }
    }
}

/// `entries` are the backups read from `files` with these outcomes: one for
/// each file whose name gave a name and a time, in the order of the files,
/// with that name and time, the file's path and size, and where a backup of
/// that name is restored to.
pub open spec fn entries_built(
    c: ConfigView,
    config_dir: Seq<char>,
    files: Seq<BackupFile>,
    outcomes: Seq<Option<(Seq<char>, int)>>,
    entries: Seq<BackupEntryView>,
) -> bool {
    &&& entries.len() == picked(outcomes).len()
    &&& forall|i: int| 0 <= i < entries.len() ==> #[trigger] entry_built(c, config_dir, files, outcomes, entries[i], picked(outcomes)[i])
}

/// `e` is the backup read from the file at index `k`, with the outcome of
/// its name.
pub open spec fn entry_built(
    c: ConfigView,
    config_dir: Seq<char>,
    files: Seq<BackupFile>,
    outcomes: Seq<Option<(Seq<char>, int)>>,
    e: BackupEntryView,
    k: int,
) -> bool {
    &&& outcomes[k] matches Some((n, t))
    &&& e.original_name == n
    &&& e.timestamp == t
    &&& e.backup_path == files[k].path@
    &&& e.file_size == files[k].size
    &&& restore_target_of(c, config_dir, n, e.target_path)
}

proof fn lemma_picked_bounds(outcomes: Seq<Option<(Seq<char>, int)>>)
    ensures
        picked(outcomes).len() <= outcomes.len(),
        forall|i: int| 0 <= i < picked(outcomes).len() ==> 0 <= #[trigger] picked(outcomes)[i] < outcomes.len(),
    decreases outcomes.len(),
{
    if outcomes.len() > 0 {
        lemma_picked_bounds(outcomes.drop_last());
    }
}

/// Reads the name and time of each file of `files` from its name.
fn read_backup_names(files: &Vec<BackupFile>) -> (parsed: Vec<Option<(String, i64)>>)
    ensures
        parsed@.len() == files@.len(),
        files_parsed(files@, parsed@.map_values(|p: Option<(String, i64)>| parsed_view(p))),
{
    let mut parsed: Vec<Option<(String, i64)>> = Vec::new();
    let n = files.len();
    for k in 0..n
        invariant
            n == files@.len(),
            parsed@.len() == k,
            forall|j: int| 0 <= j < k ==> backup_parse(files@[j].name@, #[trigger] parsed_view(parsed@[j])),
    {
        let p = BackupEntry::parse_backup_filename(files[k].name.as_str());
        proof {
            assert(backup_parse(files@[k as int].name@, parsed_view(p)));
        }
        parsed.push(p);
    }
    proof {
        let pv = parsed@.map_values(|p: Option<(String, i64)>| parsed_view(p));
        assert forall|j: int| 0 <= j < files@.len() implies backup_parse(files@[j].name@, #[trigger] pv[j]) by {
            assert(pv[j] == parsed_view(parsed@[j]));
        }
    }
    parsed
}

/// Entries built from the outcomes of reading the names of `files` were each
/// read from one of the files.
proof fn lemma_built_entries_read_from(
    c: ConfigView,
    config_dir: Seq<char>,
    files: Seq<BackupFile>,
    outcomes: Seq<Option<(Seq<char>, int)>>,
    entries: Seq<BackupEntryView>,
)
    requires
        files_parsed(files, outcomes),
        entries_built(c, config_dir, files, outcomes, entries),
    ensures
        entries_read_from(c, config_dir, files, entries),
        entries.len() <= files.len(),
{
    lemma_picked_bounds(outcomes);
    assert forall|k: int| 0 <= k < entries.len() implies exists|j: int|
        0 <= j < files.len() && entry_from_file(files[j], #[trigger] entries[k])
            && restore_target_of(c, config_dir, entries[k].original_name, entries[k].target_path) by {
        let j = picked(outcomes)[k];
        assert(entry_built(c, config_dir, files, outcomes, entries[k], j));
        assert(backup_parse(files[j].name@, outcomes[j]));
        assert(entry_from_file(files[j], entries[k]));
    }
}

/// Every result of a comparison names the target it was made for.
pub proof fn lemma_outcome_target(source: Seq<char>, target: Seq<char>, obs: DiffObservation)
    ensures
        result_target(diff_outcome(source, target, obs)) == target,
{
}

/// The preview of a profile follows its links: with one observation per
/// resolved link, there is one result per link, in order, each for the
/// link's resolved target.
pub proof fn lemma_preview_follows_links(
    repo: Seq<char>,
    config_dir: Seq<char>,
    links: Seq<LinkView>,
    jobs: Seq<SyncJobView>,
    observations: Seq<DiffObservation>,
)
    requires
        jobs.len() == links.len(),
        observations.len() == jobs.len(),
        forall|k: int| 0 <= k < links.len() ==> job_of_link(repo, config_dir, links[k], #[trigger] jobs[k]),
    ensures
        forall|k: int|
            0 <= k < links.len() ==> resolved(config_dir, links[k].target, jobs[k].target) && result_target(
                #[trigger] diff_outcome(jobs[k].source, jobs[k].target, observations[k]),
            ) == jobs[k].target,
{
    assert forall|k: int| 0 <= k < links.len() implies resolved(config_dir, links[k].target, jobs[k].target)
        && result_target(#[trigger] diff_outcome(jobs[k].source, jobs[k].target, observations[k])) == jobs[k].target by {
        assert(job_of_link(repo, config_dir, links[k], jobs[k]));
        lemma_outcome_target(jobs[k].source, jobs[k].target, observations[k]);
    }
}

/// The newer-first order is a strict order.
pub proof fn lemma_newer_first_strict()
    ensures
        transitive(newer_first()),
        irreflexive(newer_first()),
{
}

impl DotfileManager {
    /// Where a backup of a file named `name` is restored to: the target of the
    /// first link, profile by profile, whose file name is `name`; otherwise
    /// `name` in the home directory.
    pub fn restore_target(&self, name: &str) -> (r: String)
        ensures
            restore_target_of(self.config@, self.config_dir@, name@, r@),
    {
        let ghost ps = self.config@.profiles;
        let ghost all = link_targets(ps);
        let mut targets: Vec<String> = Vec::new();
        let np = self.config.profiles.len();
        assert(ps.take(0) =~= Seq::<(Seq<char>, Seq<LinkView>)>::empty());
        for i in 0..np
            invariant
                np == ps.len(),
                ps == self.config@.profiles,
                targets@.len() == link_targets(ps.take(i as int)).len(),
                forall|j: int|
                    0 <= j < targets@.len() ==> resolved(
                        self.config_dir@,
                        link_targets(ps.take(i as int))[j],
                        #[trigger] targets@[j]@,
                    ),
        {
            let links = &self.config.profiles[i].1.links;
            let ghost lv = ps[i as int].1;
            let ghost base = link_targets(ps.take(i as int));
            let nl = links.len();
            for k in 0..nl
                invariant
                    nl == links@.len(),
                    lv == links@.map_values(|l: crate::config::Link| l@),
                    targets@.len() == base.len() + k,
                    forall|j: int|
                        0 <= j < targets@.len() ==> resolved(
                            self.config_dir@,
                            (base + lv.map_values(|l: LinkView| l.target))[j],
                            #[trigger] targets@[j]@,
                        ),
            {
                let t = Self::resolve_path(self.config_dir.as_str(), links[k].target.as_str());
                targets.push(t);
            }
            proof {
                assert(ps.take(i + 1).drop_last() =~= ps.take(i as int));
                assert(link_targets(ps.take(i + 1)) =~= base + lv.map_values(|l: LinkView| l.target));
            }
        }
        assert(ps.take(np as int) =~= ps);
        let home = expand_tilde("~");
        let default = crate::path::path_join(home.as_str(), name);
        let r = pick_restore_target(&targets, name, default);
        proof {
            let ts = targets@.map_values(|t: String| t@);
            assert forall|j: int| 0 <= j < ts.len() implies resolved(self.config_dir@, all[j], #[trigger] ts[j]) by {
                assert(ts[j] == targets@[j]@);
            }
            assert(tilde_expansion("~"@, home@));
        }
        r
    }

    /// The backups among `files`, given what reading each file's name gave
    /// (`parsed`, one per file): one entry for each file whose name gave a
    /// name and a time, in the order of the files, with that name and time,
    /// the file's path and size, and where a backup of that name is restored
    /// to.
    pub fn entries_from_parsed(&self, files: &Vec<BackupFile>, parsed: &Vec<Option<(String, i64)>>) -> (r: Vec<BackupEntry>)
        requires
            parsed@.len() == files@.len(),
        ensures
            entries_built(
                self.config@,
                self.config_dir@,
                files@,
                parsed@.map_values(|p: Option<(String, i64)>| parsed_view(p)),
                r@.map_values(|e: BackupEntry| e@),
            ),
    {
        let ghost pv = parsed@.map_values(|p: Option<(String, i64)>| parsed_view(p));
        let mut r: Vec<BackupEntry> = Vec::new();
        let n = files.len();
        let mut idx: usize = 0;
        assert(pv.take(0) =~= Seq::<Option<(Seq<char>, int)>>::empty());
        while idx < n
            invariant
                n == files@.len(),
                n == parsed@.len(),
                pv == parsed@.map_values(|p: Option<(String, i64)>| parsed_view(p)),
                idx <= n,
                entries_built(self.config@, self.config_dir@, files@, pv.take(idx as int), r@.map_values(|e: BackupEntry| e@)),
            decreases n - idx,
        {
            let ghost outcomes = pv.take(idx as int);
            let ghost o2 = pv.take(idx + 1);
            let ghost before = r@.map_values(|e: BackupEntry| e@);
            proof {
                lemma_picked_bounds(outcomes);
                assert(o2.drop_last() =~= outcomes);
                assert(o2.last() == parsed_view(parsed@[idx as int]));
            }
            match &parsed[idx] {
                Some((original_name, timestamp)) => {
                    let f = &files[idx];
                    let target_path = self.restore_target(original_name.as_str());
                    let e = BackupEntry {
                        original_name: original_name.clone(),
                        timestamp: *timestamp,
                        backup_path: f.path.clone(),
                        target_path,
                        file_size: f.size,
                    };
                    r.push(e);
                    proof {
                        let r1 = r@.map_values(|e: BackupEntry| e@);
                        assert(r1 =~= before.push(e@));
                        assert(picked(o2) =~= picked(outcomes).push(idx as int));
                        assert forall|i: int| 0 <= i < r1.len() implies #[trigger] entry_built(
                            self.config@,
                            self.config_dir@,
                            files@,
                            o2,
                            r1[i],
                            picked(o2)[i],
                        ) by {
                            if i < before.len() {
                                assert(r1[i] == before[i]);
                                assert(picked(o2)[i] == picked(outcomes)[i]);
                                assert(entry_built(self.config@, self.config_dir@, files@, outcomes, before[i], picked(outcomes)[i]));
                                assert(o2[picked(outcomes)[i]] == outcomes[picked(outcomes)[i]]);
                            } else {
                                assert(o2[idx as int] == parsed_view(parsed@[idx as int]));
                            }
                        }
                        assert(entries_built(self.config@, self.config_dir@, files@, o2, r1));
                    }
                },
                None => {
                    proof {
                        assert(picked(o2) =~= picked(outcomes));
                        assert forall|i: int| 0 <= i < before.len() implies #[trigger] entry_built(
                            self.config@,
                            self.config_dir@,
                            files@,
                            o2,
                            before[i],
                            picked(o2)[i],
                        ) by {
                            assert(picked(o2)[i] == picked(outcomes)[i]);
                            assert(entry_built(self.config@, self.config_dir@, files@, outcomes, before[i], picked(outcomes)[i]));
                            assert(o2[picked(outcomes)[i]] == outcomes[picked(outcomes)[i]]);
                        }
                        assert(entries_built(self.config@, self.config_dir@, files@, o2, before));
                    }
                },
            }
            idx = idx + 1;
        }
        assert(pv.take(n as int) =~= pv);
        r
    }

    /// The backups among `files`, given what reading each file's name gave,
    /// newest first: the entries of `entries_from_parsed`, sorted so that
    /// backups of the same time keep the order of their files.
    pub fn backups_from_parsed(&self, files: &Vec<BackupFile>, parsed: &Vec<Option<(String, i64)>>) -> (r: Vec<BackupEntry>)
        requires
            parsed@.len() == files@.len(),
        ensures
            exists|entries: Seq<BackupEntryView>|
                entries_built(
                    self.config@,
                    self.config_dir@,
                    files@,
                    parsed@.map_values(|p: Option<(String, i64)>| parsed_view(p)),
                    entries,
                ) && r@.map_values(|e: BackupEntry| e@) == sort_by_insertion(entries, newer_first()),
    {
        let entries = self.entries_from_parsed(files, parsed);
        let ghost ev = entries@.map_values(|e: BackupEntry| e@);
        let r = sort_newest_first(entries);
        r
    }

    /// The backups among the files of the backup directory, in the order of
    /// the files: those whose name splits into a name and a stamp that parses
    /// and that names a local time; each with where it is restored to.
    pub fn entries_from_files(&self, files: &Vec<BackupFile>) -> (r: Vec<BackupEntry>)
        ensures
            r@.len() <= files@.len(),
            entries_read_from(self.config@, self.config_dir@, files@, r@.map_values(|e: BackupEntry| e@)),
            exists|outcomes: Seq<Option<(Seq<char>, int)>>|
                files_parsed(files@, outcomes) && entries_built(
                    self.config@,
                    self.config_dir@,
                    files@,
                    outcomes,
                    r@.map_values(|e: BackupEntry| e@),
                ),
    {
        let parsed = read_backup_names(files);
        let r = self.entries_from_parsed(files, &parsed);
        proof {
            let pv = parsed@.map_values(|p: Option<(String, i64)>| parsed_view(p));
            lemma_built_entries_read_from(self.config@, self.config_dir@, files@, pv, r@.map_values(|e: BackupEntry| e@));
        }
        r
    }

    /// The backups among the files of the backup directory, newest first.
    pub fn list_backups(&self, files: &Vec<BackupFile>) -> (r: Vec<BackupEntry>)
        ensures
            ordered_by(r@.map_values(|e: BackupEntry| e@), newer_first()),
            r@.len() <= files@.len(),
            forall|k: int|
                0 <= k < r@.len() ==> exists|j: int|
                    0 <= j < files@.len() && entry_from_file(files@[j], (#[trigger] r@[k])@)
                        && restore_target_of(self.config@, self.config_dir@, r@[k]@.original_name, r@[k]@.target_path),
            exists|outcomes: Seq<Option<(Seq<char>, int)>>, entries: Seq<BackupEntryView>|
                files_parsed(files@, outcomes)
                    && entries_built(self.config@, self.config_dir@, files@, outcomes, entries)
                    && r@.map_values(|e: BackupEntry| e@) == sort_by_insertion(entries, newer_first()),
    {
        let parsed = read_backup_names(files);
        let r = self.backups_from_parsed(files, &parsed);
        proof {
            let pv = parsed@.map_values(|p: Option<(String, i64)>| parsed_view(p));
            let rv = r@.map_values(|e: BackupEntry| e@);
            let ev = choose|es: Seq<BackupEntryView>|
                entries_built(self.config@, self.config_dir@, files@, pv, es) && rv == sort_by_insertion(es, newer_first());
            lemma_built_entries_read_from(self.config@, self.config_dir@, files@, pv, ev);
            lemma_picked_bounds(pv);
            lemma_newer_first_strict();
            crate::sort::lemma_sort_by_insertion(ev, newer_first());
            broadcast use vstd::seq_lib::group_to_multiset_ensures;
            assert(rv.len() == ev.len());
            assert(files_parsed(files@, pv) && entries_built(self.config@, self.config_dir@, files@, pv, ev)
                && rv == sort_by_insertion(ev, newer_first()));
            assert forall|k: int| 0 <= k < r@.len() implies exists|j: int|
                0 <= j < files@.len() && entry_from_file(files@[j], (#[trigger] r@[k])@)
                    && restore_target_of(self.config@, self.config_dir@, r@[k]@.original_name, r@[k]@.target_path) by {
                assert(rv[k] == r@[k]@);
                assert(rv.contains(rv[k]));
                assert(rv.to_multiset().count(rv[k]) > 0);
                assert(ev.contains(rv[k]));
                let m = choose|m: int| 0 <= m < ev.len() && ev[m] == rv[k];
                assert(ev[m] == rv[k]);
            }
        }
        r
    }
}


/// The profiles are listed in sorted order, each name of the configuration
/// once.
pub proof fn lemma_profiles_listed_sorted(c: ConfigView)
    requires
        c.names_unique(),
    ensures
        ordered_by(sort_by_insertion(c.names(), name_order()), name_order()),
        sort_by_insertion(c.names(), name_order()).to_multiset() =~= c.names().to_multiset(),
        sort_by_insertion(c.names(), name_order()).no_duplicates(),
{
    let sorted = sort_by_insertion(c.names(), name_order());
    lemma_name_order_strict();
    crate::sort::lemma_sort_by_insertion(c.names(), name_order());
    c.names().lemma_multiset_has_no_duplicates();
    sorted.lemma_multiset_has_no_duplicates_conv();
}

/// Resolution changes nothing but a leading home: a path that does not start
/// with `~` alone or `~/` is joined to the base as it is, and a path that
/// does resolves to the base joined either to the path as written (the home
/// directory unknown) or to a home directory followed by the rest of it.
pub proof fn lemma_resolution_only_expands_home(base: Seq<char>, p: Seq<char>, r: Seq<char>)
    requires
        resolved(base, p, r),
    ensures
        !starts_at_home(p) ==> r == join(base, p),
        starts_at_home(p) ==> r == join(base, p) || exists|home: Seq<char>| r == join(base, #[trigger] (home + p.skip(1))),
{
}

/// An absolute path that does not start at home resolves to itself.
pub proof fn lemma_absolute_path_resolves_to_itself(base: Seq<char>, p: Seq<char>, r: Seq<char>)
    requires
        crate::path::is_absolute(p),
        resolved(base, p, r),
    ensures
        r == p,
{
}

/// A dry run of a sync takes no action and logs what the sync would log.
pub proof fn lemma_sync_dry_run_changes_nothing(
    repo: Seq<char>,
    backup_dir: Seq<char>,
    job: SyncJobView,
    obs: LinkObservation,
    stamp: Seq<char>,
)
    ensures
        link_plan(repo, backup_dir, job, obs, true, stamp) matches Ok(p) ==> p.actions.len() == 0,
        link_plan(repo, backup_dir, job, obs, true, stamp) is Ok <==> link_plan(repo, backup_dir, job, obs, false, stamp) is Ok,
        link_plan(repo, backup_dir, job, obs, true, stamp) matches Ok(p) ==> p.logs == link_plan(repo, backup_dir, job, obs, false, stamp)->Ok_0.logs,
        link_plan(repo, backup_dir, job, obs, true, stamp) matches Err(m) ==> link_plan(repo, backup_dir, job, obs, false, stamp) == Err::<PlanView, Seq<char>>(m),
{
    let t = target_step(backup_dir, job, obs, true, stamp);
    if let Ok((logs, actions, needs)) = t {
        assert(actions =~= seq![]);
    }
}

/// A target that already links to the source is left alone.
pub proof fn lemma_correct_link_is_skipped(
    repo: Seq<char>,
    backup_dir: Seq<char>,
    job: SyncJobView,
    obs: LinkObservation,
    dry_run: bool,
    stamp: Seq<char>,
)
    requires
        obs.source_exists,
        obs.target_exists,
        obs.target_link matches Some(l) && path_equal(l@, job.source),
    ensures
        link_plan(repo, backup_dir, job, obs, dry_run, stamp) matches Ok(p) && p.actions.len() == 0
            && p.logs.len() == 2 && p.logs[1] == "  [SKIP] Link already correct: "@ + job.target,
{
}

/// A target that links elsewhere is removed and the link made in its place.
pub proof fn lemma_wrong_link_is_replaced(
    repo: Seq<char>,
    backup_dir: Seq<char>,
    job: SyncJobView,
    obs: LinkObservation,
    stamp: Seq<char>,
)
    requires
        obs.source_exists,
        obs.target_exists,
        obs.target_link matches Some(l) && !path_equal(l@, job.source),
    ensures
        link_plan(repo, backup_dir, job, obs, false, stamp) matches Ok(p) && p.actions.len() >= 2
            && p.actions[0] == (FsActionView::RemoveFileQuietly { path: job.target })
            && p.actions.last() == (FsActionView::CreateSymlink { source: job.source, target: job.target }),
{
}

/// A missing source is only warned about: nothing is changed.
pub proof fn lemma_missing_source_only_warns(
    repo: Seq<char>,
    backup_dir: Seq<char>,
    job: SyncJobView,
    obs: LinkObservation,
    dry_run: bool,
    stamp: Seq<char>,
)
    requires
        !obs.source_exists,
    ensures
        link_plan(repo, backup_dir, job, obs, dry_run, stamp) matches Ok(p) && p.actions.len() == 0
            && p.logs[1] == "  [WARN] Source file does not exist: "@ + job.link_source,
{
}

/// An existing file at the target is moved into the backup directory, under
/// its name and the stamp, before the link is made in its place.
pub proof fn lemma_existing_file_backed_up_before_linking(
    repo: Seq<char>,
    backup_dir: Seq<char>,
    job: SyncJobView,
    obs: LinkObservation,
    stamp: Seq<char>,
    name: Seq<char>,
)
    requires
        obs.source_exists,
        obs.target_exists,
        obs.target_link is None,
        path_file_name(job.target) == Some(name),
    ensures
        link_plan(repo, backup_dir, job, obs, false, stamp) matches Ok(p) && p.actions.len() >= 2
            && p.actions[0] == (FsActionView::RenameQuietly {
                from: job.target,
                to: join(backup_dir, backup_name(name, stamp)),
            }) && p.actions.last() == (FsActionView::CreateSymlink { source: job.source, target: job.target }),
{
}

/// A restore that is not a dry run, of a backup that exists, always ends by
/// copying the backup to its target and then removing the backup, whatever
/// is at the target; no action before the copy removes or moves the backup.
/// It succeeds unless a file at the target has no file name to back it up
/// under.
pub proof fn lemma_restore_copies_then_removes(
    backup_dir: Seq<char>,
    backup: BackupEntryView,
    obs: RestoreObservation,
    stamp: Seq<char>,
)
    requires
        obs.backup_exists,
        backup.target_path != backup.backup_path,
    ensures
        (obs.target != TargetKind::Other || path_file_name(backup.target_path) is Some) ==> restore_plan(
            backup_dir,
            backup,
            obs,
            false,
            stamp,
        ) is Ok,
        restore_plan(backup_dir, backup, obs, false, stamp) matches Ok(p) ==> {
            &&& p.actions.len() >= 2
            &&& p.actions[p.actions.len() - 2] == (FsActionView::Copy {
                from: backup.backup_path,
                to: backup.target_path,
            })
            &&& p.actions.last() == (FsActionView::RemoveFile { path: backup.backup_path })
            &&& forall|k: int|
                0 <= k < p.actions.len() - 2 ==> match #[trigger] p.actions[k] {
                    FsActionView::RemoveFile { path } => path != backup.backup_path,
                    FsActionView::RemoveFileQuietly { path } => path != backup.backup_path,
                    FsActionView::Rename { from, .. } => from != backup.backup_path,
                    FsActionView::RenameQuietly { from, .. } => from != backup.backup_path,
                    _ => true,
                }
        },
{
    if let Ok(p) = restore_plan(backup_dir, backup, obs, false, stamp) {
        assert(p.actions.len() >= 2);
        assert forall|k: int| 0 <= k < p.actions.len() - 2 implies match #[trigger] p.actions[k] {
            FsActionView::RemoveFile { path } => path != backup.backup_path,
            FsActionView::RemoveFileQuietly { path } => path != backup.backup_path,
            FsActionView::Rename { from, .. } => from != backup.backup_path,
            FsActionView::RenameQuietly { from, .. } => from != backup.backup_path,
            _ => true,
        } by {
        }
    }
}

/// A dry run of a restore takes no action.
pub proof fn lemma_restore_dry_run_changes_nothing(
    backup_dir: Seq<char>,
    backup: BackupEntryView,
    obs: RestoreObservation,
    stamp: Seq<char>,
)
    ensures
        restore_plan(backup_dir, backup, obs, true, stamp) matches Ok(p) ==> p.actions.len() == 0,
{
}

/// Restoring over an existing file first moves that file into the backup
/// directory; the restore ends by copying the backup to the target and then
/// removing the backup.
pub proof fn lemma_restore_keeps_current_file(
    backup_dir: Seq<char>,
    backup: BackupEntryView,
    obs: RestoreObservation,
    stamp: Seq<char>,
    name: Seq<char>,
)
    requires
        obs.backup_exists,
        obs.target == TargetKind::Other,
        path_file_name(backup.target_path) == Some(name),
    ensures
        restore_plan(backup_dir, backup, obs, false, stamp) matches Ok(p) && p.actions.len() >= 3
            && p.actions[0] == (FsActionView::Rename {
                from: backup.target_path,
                to: join(backup_dir, backup_name(name, stamp)),
            }) && p.actions[p.actions.len() - 2] == (FsActionView::Copy {
                from: backup.backup_path,
                to: backup.target_path,
            }) && p.actions.last() == (FsActionView::RemoveFile { path: backup.backup_path }),
{
}

} // verus!
