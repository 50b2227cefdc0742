//! A sync as a dialogue with the file system: the run says what it needs
//! next (a directory made, a link observed, actions carried out), and is told
//! how that went, until it finishes with its log or fails.

use vstd::prelude::*;
use crate::error::{ManagerError, ManagerErrorView};
use crate::manager::{
    DotfileManager, FsAction, FsActionView, LinkObservation, PlanView, SyncJob, SyncJobView,
    job_of_link, link_plan, path_debug, profile_links, sync_header_text, Plan,
};

verus! {

/// Where a run stands.
#[derive(PartialEq, Eq, Structural, Clone, Copy, Debug)]
pub enum SyncPhase {
    /// Waiting for the backup directory to be made.
    EnsuringDir,
    /// Waiting for the observation of the next link.
    Observing,
    /// Waiting for the actions of a link to be carried out.
    Performing,
    /// Finished or failed.
    Over,
}

/// What a run needs next.
pub enum SyncRequest {
    /// Make this directory and its parents; answer with `completed`.
    EnsureDir { path: String },
    /// Observe this link; answer with `observed`.
    Observe { job: SyncJob },
    /// Carry out these actions in order, ignoring the failures of the quiet
    /// ones and stopping at any other; answer with `completed`.
    Perform { actions: Vec<FsAction> },
    /// The sync is done; this is its log.
    Finished { logs: Vec<String> },
    /// The sync failed.
    Failed { error: ManagerError },
}

/// A request as plain values.
pub enum SyncRequestView {
    EnsureDir { path: Seq<char> },
    Observe { job: SyncJobView },
    Perform { actions: Seq<FsActionView> },
    Finished { logs: Seq<Seq<char>> },
    Failed { error: ManagerErrorView },
}

impl View for SyncRequest {
    type V = SyncRequestView;

    open spec fn view(&self) -> SyncRequestView {
        match self {
            SyncRequest::EnsureDir { path } => SyncRequestView::EnsureDir { path: path@ },
            SyncRequest::Observe { job } => SyncRequestView::Observe { job: job@ },
            SyncRequest::Perform { actions } => SyncRequestView::Perform {
                actions: actions@.map_values(|a: FsAction| a@),
            },
            SyncRequest::Finished { logs } => SyncRequestView::Finished {
                logs: logs@.map_values(|l: String| l@),
            },
            SyncRequest::Failed { error } => SyncRequestView::Failed { error: error@ },
        }
    }
}

/// A sync in progress.
pub struct SyncRun {
    pub profile: String,
    pub dry_run: bool,
    /// The links of the profile, resolved.
    pub jobs: Vec<SyncJob>,
    /// The index of the link to observe next.
    pub next: usize,
    /// The log so far.
    pub logs: Vec<String>,
    pub phase: SyncPhase,
}

/// A run as plain values.
#[verifier::ext_equal]
pub struct SyncRunView {
    pub profile: Seq<char>,
    pub dry_run: bool,
    pub jobs: Seq<SyncJobView>,
    pub next: nat,
    pub logs: Seq<Seq<char>>,
    pub phase: SyncPhase,
}

impl View for SyncRun {
    type V = SyncRunView;

    open spec fn view(&self) -> SyncRunView {
        SyncRunView {
            profile: self.profile@,
            dry_run: self.dry_run,
            jobs: self.jobs@.map_values(|j: SyncJob| j@),
            next: self.next as nat,
            logs: self.logs@.map_values(|l: String| l@),
            phase: self.phase,
        }
    }
}

/// A request is one the run can take the answer to: it waits in the phase
/// that answers it, and an observation is asked for its next link.
pub open spec fn awaits(r: SyncRunView, req: SyncRequestView) -> bool {
    match req {
        SyncRequestView::EnsureDir { .. } => r.phase == SyncPhase::EnsuringDir,
        SyncRequestView::Observe { job } => {
            &&& r.phase == SyncPhase::Observing
            &&& r.next < r.jobs.len()
            &&& job == r.jobs[r.next as int]
        },
        SyncRequestView::Perform { .. } => r.phase == SyncPhase::Performing,
        SyncRequestView::Finished { .. } => r.phase == SyncPhase::Over,
        SyncRequestView::Failed { .. } => r.phase == SyncPhase::Over,
    }
}

/// The log of a run opens with the header of its profile and kind.
pub open spec fn framed(r: SyncRunView) -> bool {
    r.logs.len() > 0 && r.logs[0] == sync_header_text(r.profile, r.dry_run)
}

/// The last line of a sync's log.
pub open spec fn footer_text() -> Seq<char> {
    "--- Sync Finished ---"@
}

/// Moving on: observe the next link, or finish with the footer once every
/// link is done.
pub open spec fn advance(r: SyncRunView) -> (SyncRunView, SyncRequestView) {
    if r.next < r.jobs.len() {
        (SyncRunView { phase: SyncPhase::Observing, ..r }, SyncRequestView::Observe { job: r.jobs[r.next as int] })
    } else {
        let logs = r.logs.push(footer_text());
        (SyncRunView { logs, phase: SyncPhase::Over, ..r }, SyncRequestView::Finished { logs })
    }
}

/// A failed run.
pub open spec fn failure(r: SyncRunView, error: ManagerErrorView) -> (SyncRunView, SyncRequestView) {
    (SyncRunView { phase: SyncPhase::Over, ..r }, SyncRequestView::Failed { error })
}

/// After the observation of the current link: its plan's lines are logged and
/// its actions asked for, or the run moves on when there are none.
pub open spec fn after_observation(
    repo: Seq<char>,
    backup_dir: Seq<char>,
    r: SyncRunView,
    obs: LinkObservation,
    stamp: Seq<char>,
) -> (SyncRunView, SyncRequestView) {
    match link_plan(repo, backup_dir, r.jobs[r.next as int], obs, r.dry_run, stamp) {
        Err(m) => failure(r, ManagerErrorView::Io(m)),
        Ok(p) => {
            let r2 = SyncRunView { logs: r.logs + p.logs, next: r.next + 1, ..r };
            if p.actions.len() == 0 {
                advance(r2)
            } else {
                (SyncRunView { phase: SyncPhase::Performing, ..r2 }, SyncRequestView::Perform { actions: p.actions })
            }
        },
    }
}

/// The jobs of a run are the links of its profile, resolved by the manager.
pub open spec fn jobs_of_profile(m: &DotfileManager, links: Seq<crate::config::LinkView>, jobs: Seq<SyncJobView>) -> bool {
    &&& jobs.len() == links.len()
    &&& forall|k: int| 0 <= k < links.len() ==> job_of_link(m.repo_path@, m.config_dir@, links[k], #[trigger] jobs[k])
}

/// Once the backup directory is ready (or at once for a dry run): the
/// profile's links are looked up, and the run fails when there is no such
/// profile, else starts on the first link.
pub open spec fn after_setup(m: &DotfileManager, before: SyncRunView, r: SyncRunView, req: SyncRequestView) -> bool {
    match profile_links(m.config@, before.profile) {
        None => (r, req) == failure(before, ManagerErrorView::ProfileNotFound(before.profile)),
        Some(links) => exists|jobs: Seq<SyncJobView>|
            jobs_of_profile(m, links, jobs) && (r, req) == advance(SyncRunView { jobs, next: 0, ..before }),
    }
}

/// What `start` gives: a real sync waits for its backup directory with just
/// the header logged; a dry run looks up the profile at once.
pub open spec fn started(m: &DotfileManager, profile: Seq<char>, dry_run: bool, r: SyncRunView, req: SyncRequestView) -> bool {
    let before = SyncRunView {
        profile,
        dry_run,
        jobs: seq![],
        next: 0,
        logs: seq![sync_header_text(profile, dry_run)],
        phase: SyncPhase::EnsuringDir,
    };
    &&& !dry_run ==> r == before && req == (SyncRequestView::EnsureDir { path: m.backup_path@ })
    &&& dry_run ==> after_setup(m, before, r, req)
}

/// One answered request: `r2` and `req2` are what `completed` or `observed`
/// gives for a run `r` that waits for that answer.
pub open spec fn step(m: &DotfileManager, r: SyncRunView, r2: SyncRunView, req2: SyncRequestView) -> bool {
    ||| (r.phase == SyncPhase::EnsuringDir || r.phase == SyncPhase::Performing) && exists|msg: Seq<char>|
        #![trigger failure(r, ManagerErrorView::Io(msg))]
        (r2, req2) == failure(r, ManagerErrorView::Io(msg))
    ||| r.phase == SyncPhase::EnsuringDir && after_setup(
        m,
        SyncRunView { logs: r.logs.push(dir_ready_text(m)), ..r },
        r2,
        req2,
    )
    ||| r.phase == SyncPhase::Performing && (r2, req2) == advance(r)
    ||| r.phase == SyncPhase::Observing && r.next < r.jobs.len() && exists|obs: LinkObservation, stamp: Seq<char>|
        #![trigger after_observation(m.repo_path@, m.backup_path@, r, obs, stamp)]
        (r2, req2) == after_observation(m.repo_path@, m.backup_path@, r, obs, stamp)
}

/// The log line once the backup directory exists.
pub open spec fn dir_ready_text(m: &DotfileManager) -> Seq<char> {
    "Backup directory ensured: "@ + path_debug(m.backup_path@)
}

fn failed(run: &mut SyncRun, error: ManagerError) -> (req: SyncRequest)
    ensures
        (final(run)@, req@) == failure(old(run)@, error@),
        awaits(final(run)@, req@),
        framed(old(run)@) ==> framed(final(run)@),
{
    run.phase = SyncPhase::Over;
    assert(run@ =~= failure(old(run)@, error@).0);
    SyncRequest::Failed { error }
}

fn advance_run(run: &mut SyncRun) -> (req: SyncRequest)
    ensures
        (final(run)@, req@) == advance(old(run)@),
        awaits(final(run)@, req@),
        framed(old(run)@) ==> framed(final(run)@),
{
    if run.next < run.jobs.len() {
        run.phase = SyncPhase::Observing;
        let job = run.jobs[run.next].duplicate();
        assert(run@ =~= advance(old(run)@).0);
        SyncRequest::Observe { job }
    } else {
        run.logs.push(DotfileManager::sync_footer());
        run.phase = SyncPhase::Over;
        let logs = run.logs.clone();
        proof {
            assert(logs@.len() == run.logs@.len());
            assert(forall|i: int| 0 <= i < logs@.len() ==> logs@[i] == run.logs@[i]);
            assert(logs@.map_values(|l: String| l@) =~= run.logs@.map_values(|l: String| l@));
            assert(run@.logs =~= old(run)@.logs.push(footer_text()));
            assert(run@ =~= advance(old(run)@).0);
        }
        SyncRequest::Finished { logs }
    }
}

fn setup(run: &mut SyncRun, m: &DotfileManager) -> (req: SyncRequest)
    ensures
        after_setup(m, old(run)@, final(run)@, req@),
        awaits(final(run)@, req@),
        framed(old(run)@) ==> framed(final(run)@),
{
    let ghost before = run@;
    match m.sync_jobs(run.profile.as_str()) {
        Err(e) => failed(run, e),
        Ok(jobs) => {
            let ghost jv = jobs@.map_values(|j: SyncJob| j@);
            run.jobs = jobs;
            run.next = 0;
            proof {
                let links = profile_links(m.config@, before.profile)->Some_0;
                assert(jobs_of_profile(m, links, jv)) by {
                    assert forall|k: int| 0 <= k < links.len() implies job_of_link(
                        m.repo_path@,
                        m.config_dir@,
                        links[k],
                        #[trigger] jv[k],
                    ) by {
                        assert(jv[k] == run.jobs@[k]@);
                    }
                }
                assert(run@ =~= SyncRunView { jobs: jv, next: 0, ..before });
            }
            advance_run(run)
        },
    }
}

impl SyncRun {
    /// Starts a sync of a profile: the log opens with the header; a real sync
    /// first asks for the backup directory; a dry run looks up the profile at
    /// once.
    pub fn start(m: &DotfileManager, profile_name: &str, dry_run: bool) -> (res: (SyncRun, SyncRequest))
        ensures
            started(m, profile_name@, dry_run, res.0@, res.1@),
            awaits(res.0@, res.1@),
            framed(res.0@),
    {
        let mut logs: Vec<String> = Vec::new();
        logs.push(DotfileManager::sync_header(profile_name, dry_run));
        let mut run = SyncRun {
            profile: profile_name.to_owned(),
            dry_run,
            jobs: Vec::new(),
            next: 0,
            logs,
            phase: SyncPhase::EnsuringDir,
        };
        proof {
            assert(run@.logs =~= seq![sync_header_text(profile_name@, dry_run)]);
            assert(run@.jobs =~= Seq::<SyncJobView>::empty());
        }
        if dry_run {
            let req = setup(&mut run, m);
            (run, req)
        } else {
            let path = m.backup_path.clone();
            (run, SyncRequest::EnsureDir { path })
        }
    }

    /// Takes the outcome of the last request for a directory or for actions:
    /// on failure the run fails with its message; once the backup directory
    /// is ready its line is logged and the profile is looked up; once a
    /// link's actions are done the run moves on.
    pub fn completed(&mut self, m: &DotfileManager, outcome: Result<(), String>) -> (req: SyncRequest)
        requires
            old(self).phase == SyncPhase::EnsuringDir || old(self).phase == SyncPhase::Performing,
        ensures
            outcome matches Err(msg) ==> (final(self)@, req@) == failure(old(self)@, ManagerErrorView::Io(msg@)),
            outcome is Ok && old(self).phase == SyncPhase::EnsuringDir ==> after_setup(
                m,
                SyncRunView { logs: old(self)@.logs.push(dir_ready_text(m)), ..old(self)@ },
                final(self)@,
                req@,
            ),
            outcome is Ok && old(self).phase == SyncPhase::Performing ==> (final(self)@, req@) == advance(old(self)@),
            awaits(final(self)@, req@),
            framed(old(self)@) ==> framed(final(self)@),
            step(m, old(self)@, final(self)@, req@),
    {
        match outcome {
            Err(msg) => failed(self, ManagerError::Io(msg)),
            Ok(()) => {
                if self.phase == SyncPhase::EnsuringDir {
                    self.logs.push(m.backup_dir_log());
                    assert(self@ =~= SyncRunView { logs: old(self)@.logs.push(dir_ready_text(m)), ..old(self)@ });
                    setup(self, m)
                } else {
                    advance_run(self)
                }
            },
        }
    }

    /// Takes the observation of the current link and the stamp for its
    /// backup: plans the link, logs the plan's lines, and asks for its
    /// actions (or moves on when there are none); fails with the plan's error.
    pub fn observed(&mut self, m: &DotfileManager, obs: &LinkObservation, stamp: &str) -> (req: SyncRequest)
        requires
            old(self).phase == SyncPhase::Observing,
            old(self).next < old(self).jobs@.len(),
        ensures
            (final(self)@, req@) == after_observation(m.repo_path@, m.backup_path@, old(self)@, *obs, stamp@),
            awaits(final(self)@, req@),
            framed(old(self)@) ==> framed(final(self)@),
            step(m, old(self)@, final(self)@, req@),
    {
        let ghost before = self@;
        let i = self.next;
        assert(before.jobs.len() == self.jobs@.len());
        let req = match m.plan_link(&self.jobs[i], obs, self.dry_run, stamp) {
            Err(e) => failed(self, e),
            Ok(plan) => {
                let ghost pv = plan@;
                let Plan { logs, actions } = plan;
                let ghost before_logs = self@.logs;
                let ghost lv = logs@.map_values(|l: String| l@);
                let n = logs.len();
                for k in 0..n
                    invariant
                        n == logs@.len(),
                        lv == logs@.map_values(|l: String| l@),
                        self@.logs == before_logs + lv.take(k as int),
                        self@.jobs == before.jobs,
                        self.next == before.next,
                        self.dry_run == before.dry_run,
                        self@.profile == before.profile,
                        self.phase == before.phase,
                {
                    let ghost b = self@.logs;
                    self.logs.push(logs[k].clone());
                    proof {
                        assert(self@.logs =~= b.push(lv[k as int]));
                        assert(lv.take(k + 1) =~= lv.take(k as int).push(lv[k as int]));
                    }
                }
                assert(lv.take(n as int) =~= lv);
                assert(self@.jobs.len() == self.jobs@.len());
                let total = self.jobs.len();
                assert(i < total);
                self.next = i + 1;
                let ghost r2 = SyncRunView { logs: before.logs + pv.logs, next: before.next + 1, ..before };
                assert(self@ =~= r2);
                if actions.len() == 0 {
                    advance_run(self)
                } else {
                    self.phase = SyncPhase::Performing;
                    assert(self@ =~= SyncRunView { phase: SyncPhase::Performing, ..r2 });
                    SyncRequest::Perform { actions }
                }
            },
        };
        proof {
            let s2 = after_observation(m.repo_path@, m.backup_path@, before, *obs, stamp@);
            assert((self@, req@) == s2);
        }
        req
    }
}

/// A dry run never asks for a directory or for actions: a dry run that
/// starts only observes links, then finishes or fails.
pub proof fn lemma_dry_run_asks_for_no_change(
    repo: Seq<char>,
    backup_dir: Seq<char>,
    r: SyncRunView,
    obs: LinkObservation,
    stamp: Seq<char>,
)
    requires
        r.dry_run,
        r.next < r.jobs.len(),
    ensures
        !(after_observation(repo, backup_dir, r, obs, stamp).1 is EnsureDir),
        !(after_observation(repo, backup_dir, r, obs, stamp).1 is Perform),
        after_observation(repo, backup_dir, r, obs, stamp).0.dry_run,
{
    crate::manager::lemma_sync_dry_run_changes_nothing(repo, backup_dir, r.jobs[r.next as int], obs, stamp);
}

/// A finished sync's log opens with the header of its profile and kind and
/// closes with the footer.
pub proof fn lemma_finished_log_is_framed(r: SyncRunView)
    requires
        framed(r),
    ensures
        advance(r).1 matches SyncRequestView::Finished { logs } ==> logs[0] == sync_header_text(r.profile, r.dry_run)
            && logs.last() == footer_text(),
{
}

/// One answered request keeps a run's profile, kind and opening header; when
/// it finishes the run, the log handed out is the run's log, ending with the
/// footer.
proof fn lemma_step_keeps_frame(m: &DotfileManager, r: SyncRunView, r2: SyncRunView, req2: SyncRequestView)
    requires
        step(m, r, r2, req2),
        framed(r),
    ensures
        framed(r2),
        r2.profile == r.profile,
        r2.dry_run == r.dry_run,
        req2 matches SyncRequestView::Finished { logs } ==> logs == r2.logs && logs.last() == footer_text(),
{
    if r.phase == SyncPhase::EnsuringDir && after_setup(m, SyncRunView { logs: r.logs.push(dir_ready_text(m)), ..r }, r2, req2) {
        let before = SyncRunView { logs: r.logs.push(dir_ready_text(m)), ..r };
        if let Some(links) = profile_links(m.config@, before.profile) {
            let jobs = choose|jobs: Seq<SyncJobView>|
                jobs_of_profile(m, links, jobs) && (r2, req2) == advance(SyncRunView { jobs, next: 0, ..before });
        }
    } else if r.phase == SyncPhase::Observing && r.next < r.jobs.len() && exists|obs: LinkObservation, stamp: Seq<char>|
        #![trigger after_observation(m.repo_path@, m.backup_path@, r, obs, stamp)]
        (r2, req2) == after_observation(m.repo_path@, m.backup_path@, r, obs, stamp) {
        let (obs, stamp) = choose|obs: LinkObservation, stamp: Seq<char>|
            #![trigger after_observation(m.repo_path@, m.backup_path@, r, obs, stamp)]
            (r2, req2) == after_observation(m.repo_path@, m.backup_path@, r, obs, stamp);
        if let Ok(p) = link_plan(m.repo_path@, m.backup_path@, r.jobs[r.next as int], obs, r.dry_run, stamp) {
            assert((r.logs + p.logs)[0] == r.logs[0]);
        }
    }
}

/// The first answer: a started run is framed by its header, and when it
/// finishes at once its log is the run's log, ending with the footer.
proof fn lemma_start_frames(m: &DotfileManager, profile: Seq<char>, dry_run: bool, r: SyncRunView, req: SyncRequestView)
    requires
        started(m, profile, dry_run, r, req),
    ensures
        framed(r),
        r.profile == profile,
        r.dry_run == dry_run,
        req matches SyncRequestView::Finished { logs } ==> logs == r.logs && logs.last() == footer_text(),
{
    let before = SyncRunView {
        profile,
        dry_run,
        jobs: seq![],
        next: 0,
        logs: seq![sync_header_text(profile, dry_run)],
        phase: SyncPhase::EnsuringDir,
    };
    if dry_run {
        if let Some(links) = profile_links(m.config@, profile) {
            let jobs = choose|jobs: Seq<SyncJobView>|
                jobs_of_profile(m, links, jobs) && (r, req) == advance(SyncRunView { jobs, next: 0, ..before });
        }
    }
}

proof fn lemma_prefix_framed(
    m: &DotfileManager,
    profile: Seq<char>,
    dry_run: bool,
    runs: Seq<SyncRunView>,
    reqs: Seq<SyncRequestView>,
    k: int,
)
    requires
        runs.len() == reqs.len(),
        0 <= k < runs.len(),
        started(m, profile, dry_run, runs[0], reqs[0]),
        forall|i: int| 0 <= i < runs.len() - 1 ==> #[trigger] step(m, runs[i], runs[i + 1], reqs[i + 1]),
    ensures
        framed(runs[k]),
        runs[k].profile == profile,
        runs[k].dry_run == dry_run,
        reqs[k] matches SyncRequestView::Finished { logs } ==> logs == runs[k].logs && logs.last() == footer_text(),
    decreases k,
{
    if k == 0 {
        lemma_start_frames(m, profile, dry_run, runs[0], reqs[0]);
    } else {
        lemma_prefix_framed(m, profile, dry_run, runs, reqs, k - 1);
        assert(step(m, runs[k - 1], runs[k - 1 + 1], reqs[k - 1 + 1]));
        lemma_step_keeps_frame(m, runs[k - 1], runs[k], reqs[k]);
    }
}

/// A whole sync: whatever answers a run is given, from `start` through any
/// sequence of requests that it takes, a finished log opens with the header
/// of the profile and kind and ends with the footer.
pub proof fn lemma_whole_run_framed(
    m: &DotfileManager,
    profile: Seq<char>,
    dry_run: bool,
    runs: Seq<SyncRunView>,
    reqs: Seq<SyncRequestView>,
)
    requires
        runs.len() == reqs.len(),
        runs.len() > 0,
        started(m, profile, dry_run, runs[0], reqs[0]),
        forall|i: int| 0 <= i < runs.len() - 1 ==> #[trigger] step(m, runs[i], runs[i + 1], reqs[i + 1]),
    ensures
        forall|k: int|
            0 <= k < reqs.len() ==> (#[trigger] reqs[k] matches SyncRequestView::Finished { logs } ==> logs.len() > 0
                && logs[0] == sync_header_text(profile, dry_run) && logs.last() == footer_text()),
{
    assert forall|k: int| 0 <= k < reqs.len() implies (#[trigger] reqs[k] matches SyncRequestView::Finished { logs }
        ==> logs.len() > 0 && logs[0] == sync_header_text(profile, dry_run) && logs.last() == footer_text()) by {
        lemma_prefix_framed(m, profile, dry_run, runs, reqs, k);
    }
}

} // verus!
