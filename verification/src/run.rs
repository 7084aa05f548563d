//! One command, from stopping the host to writing the manifest: which
//! plugins are worked on, in which order, and what each report of the driver
//! leads to.

use vstd::prelude::*;
use vstd::string::*;

use crate::action::{notice_views, Action, ActionView, Event, EventView, Kind, Notice, NoticeView};
use crate::config::{Config, ConfigView};
use crate::error::{message_of, Error, ErrorView};
use crate::host::{kill_command, kill_failure, kill_ptr, start_command, start_failure, start_ptr};
use crate::install::{
    add_request, force_request, install_begin, install_step, update_request, Install,
    InstallView, Outcome, OutcomeView, Progress, ProgressView, Request, RequestView,
};
use crate::registry::{Plugin, PluginView};
use crate::text::{clone_opt, opt_view, views};

verus! {

/// One plugin to work on.
#[derive(Clone, Debug, PartialEq, Eq)]
pub struct Job {
    pub kind: Kind,
    pub name: String,
    /// The tag to install; the latest release where there is none.
    pub version: Option<String>,
    /// The repository of a plugin that is added; empty otherwise.
    pub repo: String,
    /// The pattern of a plugin that is added.
    pub pattern: Option<String>,
}

/// The mathematical value of a [`Job`].
pub struct JobView {
    pub kind: Kind,
    pub name: Seq<char>,
    pub version: Option<Seq<char>>,
    pub repo: Seq<char>,
    pub pattern: Option<Seq<char>>,
}

impl View for Job {
    type V = JobView;

    open spec fn view(&self) -> JobView {
        JobView {
            kind: self.kind,
            name: self.name@,
            version: opt_view(self.version),
            repo: self.repo@,
            pattern: opt_view(self.pattern),
        }
    }
}

/// The values of a sequence of jobs.
pub open spec fn job_views(jobs: Seq<Job>) -> Seq<JobView> {
    jobs.map_values(|j: Job| j@)
}

/// Which report a command waits for.
#[derive(Clone, Copy, Debug, PartialEq, Eq, Structural)]
pub enum Phase {
    /// That the host was stopped.
    Stopping,
    /// A report on the installation of the current job.
    Installing,
    /// That the directory of the current job was removed.
    Removing,
    /// That the host was started.
    Starting,
    /// That the manifest was written.
    Saving,
    /// None: the command has ended.
    Finished,
}

/// A command under way.
#[derive(Debug)]
pub struct Run {
    jobs: Vec<Job>,
    next: usize,
    phase: Phase,
    install: Option<Install>,
    restart: bool,
    strict: bool,
    failed: bool,
}

/// The mathematical value of a [`Run`].
pub struct RunView {
    /// The plugins to work on, in order.
    pub jobs: Seq<JobView>,
    /// The job that is worked on; those before it are done.
    pub next: nat,
    pub phase: Phase,
    /// The installation of the current job, while there is one.
    pub install: Option<InstallView>,
    /// Whether the host is started again at the end.
    pub restart: bool,
    /// Whether the first job that fails ends the command, as a failure.
    pub strict: bool,
    /// Whether the command has failed: its host could not be stopped, its
    /// manifest could not be written, a plugin to add was installed
    /// already, or it is strict and a job failed. A failure of one plugin
    /// among several is shown, and fails the command only if it is strict.
    pub failed: bool,
}

/// What a step of a command comes to: the command and the configuration
/// after it, the lines for the user, and the next action.
pub struct Turn {
    pub run: RunView,
    pub config: ConfigView,
    pub notices: Seq<NoticeView>,
    pub action: ActionView,
}

/// What the driver gets from a step: lines to show, and the action to carry
/// out next.
#[derive(Clone, Debug, PartialEq, Eq)]
pub struct Step {
    pub notices: Vec<Notice>,
    pub action: Action,
}

/// The request that a job makes of the installer.
pub open spec fn request_of(job: JobView, c: ConfigView) -> RequestView {
    match job.kind {
        Kind::Update => update_request(c.plugins[job.name], job.name, c.arch, job.version, c.token),
        Kind::Import => force_request(c.plugins[job.name], job.name, c.arch, c.token),
        _ => add_request(job.name, job.repo, job.version, c.arch, job.pattern, c.token),
    }
}

/// The end of a command: the manifest is written, unless the command
/// failed.
pub open spec fn conclude(r: RunView) -> (RunView, ActionView) {
    if r.failed {
        (RunView { phase: Phase::Finished, ..r }, ActionView::Finish { success: false })
    } else {
        (RunView { phase: Phase::Saving, ..r }, ActionView::Save)
    }
}

/// What follows the last job: the host is started again, unless the caller
/// opted out.
pub open spec fn wind_down(r: RunView, c: ConfigView) -> (RunView, ActionView) {
    if r.restart {
        (RunView { phase: Phase::Starting, ..r }, ActionView::StartHost(start_command(c.pt_path)))
    } else {
        conclude(r)
    }
}

/// The first action for the job at `r.next`, or for the first job behind it
/// that is not passed over: a plugin that is not installed is neither
/// updated nor imported nor removed, and one that is installed is not
/// added.
pub open spec fn advance(r: RunView, c: ConfigView) -> (RunView, Seq<NoticeView>, ActionView)
    decreases r.jobs.len() - r.next,
{
    if r.failed || r.next >= r.jobs.len() {
        let (run, action) = wind_down(r, c);
        (run, Seq::empty(), action)
    } else {
        let job = r.jobs[r.next as int];
        let known = c.plugins.dom().contains(job.name);
        if job.kind == Kind::Add && known {
            let (run, action) = wind_down(RunView { failed: true, ..r }, c);
            (
                run,
                seq![
                    NoticeView::Failed {
                        kind: Kind::Add,
                        name: job.name,
                        error: ErrorView::AlreadyExists,
                    },
                ],
                action,
            )
        } else if job.kind != Kind::Add && !known {
            advance(RunView { next: r.next + 1, ..r }, c)
        } else if job.kind == Kind::Remove {
            (
                RunView { phase: Phase::Removing, ..r },
                Seq::empty(),
                ActionView::RemoveDir { name: job.name },
            )
        } else {
            let (install, action) = install_begin(request_of(job, c));
            (
                RunView { phase: Phase::Installing, install: Some(install), ..r },
                Seq::empty(),
                action,
            )
        }
    }
}

/// The registry after the release tagged `tag` was installed for a job.
pub open spec fn installed(
    plugins: Map<Seq<char>, PluginView>,
    job: JobView,
    tag: Seq<char>,
) -> Map<Seq<char>, PluginView> {
    if job.kind == Kind::Add {
        plugins.insert(job.name, PluginView { repo: job.repo, version: tag, pattern: job.pattern })
    } else if plugins.dom().contains(job.name) {
        plugins.insert(job.name, PluginView { version: tag, ..plugins[job.name] })
    } else {
        plugins
    }
}

/// The current job is done, with a line for the user; the command goes on
/// to the next one.
pub open spec fn move_on(r: RunView, c: ConfigView, notice: NoticeView) -> Turn {
    let (run, notices, action) = advance(RunView { next: r.next + 1, install: None, ..r }, c);
    Turn { run, config: c, notices: seq![notice] + notices, action }
}

/// What the end of the current job's installation leads to. Only a
/// completed installation changes the registry.
pub open spec fn job_done(r: RunView, c: ConfigView, outcome: OutcomeView) -> Turn {
    let job = r.jobs[r.next as int];
    match outcome {
        OutcomeView::Installed(tag) => move_on(
            r,
            ConfigView { plugins: installed(c.plugins, job, tag), ..c },
            NoticeView::Added { name: job.name, version: tag },
        ),
        OutcomeView::UpToDate(tag) => move_on(
            r,
            c,
            NoticeView::UpToDate { name: job.name, version: tag },
        ),
        OutcomeView::Failed(error) => move_on(
            RunView { failed: r.strict, ..r },
            c,
            NoticeView::Failed { kind: job.kind, name: job.name, error },
        ),
    }
}

/// The command ends here, as a failure, with a line that says why.
pub open spec fn abort(r: RunView, c: ConfigView, error: ErrorView) -> Turn {
    Turn {
        run: RunView { phase: Phase::Finished, failed: true, ..r },
        config: c,
        notices: seq![NoticeView::Problem(error)],
        action: ActionView::Finish { success: false },
    }
}

/// What a report means that the pending action cannot come to.
pub open spec fn failure_of(e: EventView) -> ErrorView {
    match e {
        EventView::Failed(error) => error,
        _ => ErrorView::Unexpected,
    }
}

/// The step of a command in state `r`, with the configuration `c`, on the
/// report `e`.
pub open spec fn run_step(r: RunView, c: ConfigView, e: EventView) -> Turn {
    match r.phase {
        Phase::Stopping => match e {
            EventView::Done => {
                let (run, notices, action) = advance(r, c);
                Turn { run, config: c, notices, action }
            },
            _ => abort(
                r,
                c,
                ErrorView::ProcessError(
                    "Failed to kill PowerToys: "@ + message_of(failure_of(e)),
                ),
            ),
        },
        Phase::Installing => if r.next < r.jobs.len() && r.install is Some {
            let (install, progress) = install_step(r.install->Some_0, e);
            match progress {
                ProgressView::Perform(action) => Turn {
                    run: RunView { install: Some(install), ..r },
                    config: c,
                    notices: Seq::empty(),
                    action,
                },
                ProgressView::Finished(outcome) => job_done(r, c, outcome),
            }
        } else {
            abort(r, c, ErrorView::Unexpected)
        },
        Phase::Removing => if r.next < r.jobs.len() {
            let name = r.jobs[r.next as int].name;
            match e {
                EventView::Done => move_on(
                    r,
                    ConfigView { plugins: c.plugins.remove(name), ..c },
                    NoticeView::Removed { name },
                ),
                _ => move_on(
                    r,
                    c,
                    NoticeView::Failed { kind: Kind::Remove, name, error: failure_of(e) },
                ),
            }
        } else {
            abort(r, c, ErrorView::Unexpected)
        },
        Phase::Starting => {
            let (run, action) = conclude(r);
            Turn {
                run,
                config: c,
                notices: match e {
                    EventView::Done => Seq::empty(),
                    _ => seq![
                        NoticeView::Problem(
                            ErrorView::ProcessError(
                                "Failed to start PowerToys: "@ + message_of(failure_of(e)),
                            ),
                        ),
                    ],
                },
                action,
            }
        },
        Phase::Saving => match e {
            EventView::Done => Turn {
                run: RunView { phase: Phase::Finished, ..r },
                config: c,
                notices: Seq::empty(),
                action: ActionView::Finish { success: true },
            },
            _ => abort(r, c, failure_of(e)),
        },
        Phase::Finished => Turn {
            run: r,
            config: c,
            notices: Seq::empty(),
            action: ActionView::Finish { success: !r.failed },
        },
    }
}

/// The state and the first action of a command: the host is stopped before
/// anything else.
pub open spec fn run_begin(jobs: Seq<JobView>, restart: bool, strict: bool, admin: bool) -> (
    RunView,
    ActionView,
) {
    (
        RunView {
            jobs,
            next: 0,
            phase: Phase::Stopping,
            install: None,
            restart,
            strict,
            failed: false,
        },
        ActionView::StopHost(kill_command(admin)),
    )
}

fn failure(event: Event) -> (e: Error)
    ensures
        e@ == failure_of(event@),
{
    match event {
        Event::Failed(e) => e,
        _ => Error::Unexpected,
    }
}

fn as_str_opt(item: &Option<String>) -> (r: Option<&str>)
    ensures
        crate::text::opt_str_view(r) == opt_view(*item),
{
    match item {
        Some(s) => Some(s.as_str()),
        None => None,
    }
}

/// The request that a job makes of the installer.
fn request_for(job: &Job, config: &Config) -> (r: Request)
    requires
        job.kind == Kind::Update || job.kind == Kind::Import ==> config@.plugins.dom().contains(
            job.name@,
        ),
    ensures
        r@ == request_of(job@, config@),
{
    let arch = config.arch();
    let token = as_str_opt(config.token());
    match job.kind {
        Kind::Update => {
            let plugin = config.plugin(job.name.as_str()).unwrap();
            match &job.version {
                Some(v) => plugin.update_to(job.name.as_str(), &arch, v.as_str(), token),
                None => plugin.update(job.name.as_str(), &arch, token),
            }
        },
        Kind::Import => {
            let plugin = config.plugin(job.name.as_str()).unwrap();
            plugin.force_update(job.name.as_str(), &arch, token)
        },
        _ => Plugin::add(
            job.name.as_str(),
            job.repo.clone(),
            clone_opt(&job.version),
            &arch,
            clone_opt(&job.pattern),
            token,
        ),
    }
}

impl Run {
    /// The command as a mathematical value.
    pub closed spec fn view(&self) -> RunView {
        RunView {
            jobs: job_views(self.jobs@),
            next: self.next as nat,
            phase: self.phase,
            install: match self.install {
                Some(install) => Some(install@),
                None => None,
            },
            restart: self.restart,
            strict: self.strict,
            failed: self.failed,
        }
    }

    /// Begins a command on `jobs`. The first action stops the host, with
    /// elevated privileges if `admin` is set.
    pub fn begin(jobs: Vec<Job>, restart: bool, strict: bool, admin: bool) -> (r: (Run, Action))
        ensures
            (r.0@, r.1@) == run_begin(job_views(jobs@), restart, strict, admin),
    {
        (
            Run {
                jobs,
                next: 0,
                phase: Phase::Stopping,
                install: None,
                restart,
                strict,
                failed: false,
            },
            Action::StopHost(kill_ptr(admin)),
        )
    }

    /// Which report the command waits for.
    pub fn phase(&self) -> (p: Phase)
        ensures
            p == self@.phase,
    {
        self.phase
    }

    /// Whether the command has failed.
    pub fn failed(&self) -> (f: bool)
        ensures
            f == self@.failed,
    {
        self.failed
    }

    fn conclude(&mut self) -> (action: Action)
        ensures
            (final(self)@, action@) == conclude(old(self)@),
    {
        if self.failed {
            self.phase = Phase::Finished;
            Action::Finish { success: false }
        } else {
            self.phase = Phase::Saving;
            Action::Save
        }
    }

    fn wind_down(&mut self, config: &Config) -> (action: Action)
        ensures
            (final(self)@, action@) == wind_down(old(self)@, config@),
    {
        if self.restart {
            self.phase = Phase::Starting;
            Action::StartHost(start_ptr(config.pt_path().as_str()))
        } else {
            self.conclude()
        }
    }

    fn advance(&mut self, config: &Config, notices: Vec<Notice>) -> (step: Step)
        ensures
            ({
                let (run, more, action) = advance(old(self)@, config@);
                &&& final(self)@ == run
                &&& notice_views(step.notices@) == notice_views(notices@) + more
                &&& step.action@ == action
            }),
    {
        let mut lines = notices;
        let ghost given = notice_views(notices@);
        let ghost start = self@;
        loop
            invariant
                start == old(self)@,
                given == notice_views(notices@),
                advance(self@, config@) == advance(start, config@),
                notice_views(lines@) == given,
            decreases self.jobs.len() - self.next,
        {
            assert(job_views(self.jobs@).len() == self.jobs.len());
            if self.failed || self.next >= self.jobs.len() {
                let action = self.wind_down(config);
                assert(given + Seq::<NoticeView>::empty() =~= given);
                return Step { notices: lines, action };
            }
            assert(job_views(self.jobs@)[self.next as int] == self.jobs@[self.next as int]@);
            let known = config.contains(self.jobs[self.next].name.as_str());
            let kind = self.jobs[self.next].kind;
            if kind == Kind::Add && known {
                let name = self.jobs[self.next].name.clone();
                self.failed = true;
                let action = self.wind_down(config);
                lines.push(Notice::Failed { kind: Kind::Add, name, error: Error::AlreadyExists });
                assert(notice_views(lines@) =~= given + seq![
                    NoticeView::Failed {
                        kind: Kind::Add,
                        name: name@,
                        error: ErrorView::AlreadyExists,
                    },
                ]);
                return Step { notices: lines, action };
            } else if kind != Kind::Add && !known {
                assert(advance(self@, config@) == advance(
                    RunView { next: self@.next + 1, ..self@ },
                    config@,
                ));
                self.next = self.next + 1;
            } else if kind == Kind::Remove {
                self.phase = Phase::Removing;
                let action = Plugin::remove(self.jobs[self.next].name.as_str());
                assert(given + Seq::<NoticeView>::empty() =~= given);
                return Step { notices: lines, action };
            } else {
                let request = request_for(&self.jobs[self.next], config);
                let (install, action) = Install::begin(request);
                self.install = Some(install);
                self.phase = Phase::Installing;
                assert(given + Seq::<NoticeView>::empty() =~= given);
                return Step { notices: lines, action };
            }
        }
    }

    fn move_on(&mut self, config: &Config, notice: Notice) -> (step: Step)
        requires
            old(self)@.next < old(self)@.jobs.len(),
        ensures
            ({
                let turn = move_on(old(self)@, config@, notice@);
                &&& final(self)@ == turn.run
                &&& notice_views(step.notices@) == turn.notices
                &&& step.action@ == turn.action
            }),
    {
        assert(job_views(self.jobs@).len() == self.jobs.len());
        self.next = self.next + 1;
        self.install = None;
        let mut notices: Vec<Notice> = Vec::new();
        notices.push(notice);
        assert(notice_views(notices@) =~= seq![notice@]);
        self.advance(config, notices)
    }

    fn abort(&mut self, error: Error) -> (step: Step)
        ensures
            final(self)@ == (RunView { phase: Phase::Finished, failed: true, ..old(self)@ }),
            notice_views(step.notices@) == seq![NoticeView::Problem(error@)],
            step.action@ == (ActionView::Finish { success: false }),
    {
        self.phase = Phase::Finished;
        self.failed = true;
        let mut notices: Vec<Notice> = Vec::new();
        notices.push(Notice::Problem(error));
        assert(notice_views(notices@) =~= seq![NoticeView::Problem(error@)]);
        Step { notices, action: Action::Finish { success: false } }
    }

    fn job_done(&mut self, config: &mut Config, outcome: Outcome) -> (step: Step)
        requires
            old(self)@.next < old(self)@.jobs.len(),
        ensures
            ({
                let turn = job_done(old(self)@, old(config)@, outcome@);
                &&& final(self)@ == turn.run
                &&& final(config)@ == turn.config
                &&& notice_views(step.notices@) == turn.notices
                &&& step.action@ == turn.action
            }),
    {
        assert(job_views(self.jobs@)[self.next as int] == self.jobs@[self.next as int]@);
        let name = self.jobs[self.next].name.clone();
        match outcome {
            Outcome::Installed(tag) => {
                if self.jobs[self.next].kind == Kind::Add {
                    config.record(
                        name.clone(),
                        Plugin {
                            repo: self.jobs[self.next].repo.clone(),
                            version: tag.clone(),
                            pattern: clone_opt(&self.jobs[self.next].pattern),
                        },
                    );
                } else {
                    config.set_version(name.as_str(), tag.clone());
                }
                self.move_on(config, Notice::Added { name, version: tag })
            },
            Outcome::UpToDate(tag) => self.move_on(config, Notice::UpToDate { name, version: tag }),
            Outcome::Failed(error) => {
                let kind = self.jobs[self.next].kind;
                self.failed = self.strict;
                self.move_on(config, Notice::Failed { kind, name, error })
            },
        }
    }

    fn stopped(&mut self, config: &Config, event: Event) -> (step: Step)
        requires
            old(self)@.phase == Phase::Stopping,
        ensures
            ({
                let turn = run_step(old(self)@, config@, event@);
                &&& final(self)@ == turn.run
                &&& config@ == turn.config
                &&& notice_views(step.notices@) == turn.notices
                &&& step.action@ == turn.action
            }),
    {
        match event {
            Event::Done => self.advance(config, Vec::new()),
            _ => {
                let cause = failure(event);
                self.abort(kill_failure(cause.message().as_str()))
            },
        }
    }

    fn installing(&mut self, config: &mut Config, event: Event) -> (step: Step)
        requires
            old(self)@.phase == Phase::Installing,
        ensures
            ({
                let turn = run_step(old(self)@, old(config)@, event@);
                &&& final(self)@ == turn.run
                &&& final(config)@ == turn.config
                &&& notice_views(step.notices@) == turn.notices
                &&& step.action@ == turn.action
            }),
    {
        assert(job_views(self.jobs@).len() == self.jobs.len());
        if self.next >= self.jobs.len() {
            return self.abort(Error::Unexpected);
        }
        let mut install = match self.install.take() {
            Some(install) => install,
            None => {
                return self.abort(Error::Unexpected);
            },
        };
        match install.step(event) {
            Progress::Perform(action) => {
                self.install = Some(install);
                Step { notices: Vec::new(), action }
            },
            Progress::Finished(outcome) => self.job_done(config, outcome),
        }
    }

    fn removing(&mut self, config: &mut Config, event: Event) -> (step: Step)
        requires
            old(self)@.phase == Phase::Removing,
        ensures
            ({
                let turn = run_step(old(self)@, old(config)@, event@);
                &&& final(self)@ == turn.run
                &&& final(config)@ == turn.config
                &&& notice_views(step.notices@) == turn.notices
                &&& step.action@ == turn.action
            }),
    {
        assert(job_views(self.jobs@).len() == self.jobs.len());
        if self.next >= self.jobs.len() {
            return self.abort(Error::Unexpected);
        }
        assert(job_views(self.jobs@)[self.next as int] == self.jobs@[self.next as int]@);
        let name = self.jobs[self.next].name.clone();
        match event {
            Event::Done => {
                config.forget(name.as_str());
                self.move_on(config, Notice::Removed { name })
            },
            _ => {
                let error = failure(event);
                self.move_on(config, Notice::Failed { kind: Kind::Remove, name, error })
            },
        }
    }

    fn started(&mut self, event: Event) -> (step: Step)
        requires
            old(self)@.phase == Phase::Starting,
        ensures
            ({
                let (run, action) = conclude(old(self)@);
                &&& final(self)@ == run
                &&& step.action@ == action
                &&& notice_views(step.notices@) == (match event@ {
                    EventView::Done => Seq::empty(),
                    _ => seq![
                        NoticeView::Problem(
                            ErrorView::ProcessError(
                                "Failed to start PowerToys: "@ + message_of(failure_of(event@)),
                            ),
                        ),
                    ],
                })
            }),
    {
        let mut notices: Vec<Notice> = Vec::new();
        match event {
            Event::Done => {
                assert(notice_views(notices@) =~= Seq::<NoticeView>::empty());
            },
            _ => {
                let cause = failure(event);
                let problem = Notice::Problem(start_failure(cause.message().as_str()));
                notices.push(problem);
                assert(notice_views(notices@) =~= seq![problem@]);
            },
        }
        let action = self.conclude();
        Step { notices, action }
    }

    fn saved(&mut self, config: &Config, event: Event) -> (step: Step)
        requires
            old(self)@.phase == Phase::Saving,
        ensures
            ({
                let turn = run_step(old(self)@, config@, event@);
                &&& final(self)@ == turn.run
                &&& notice_views(step.notices@) == turn.notices
                &&& step.action@ == turn.action
            }),
    {
        match event {
            Event::Done => {
                self.phase = Phase::Finished;
                let notices: Vec<Notice> = Vec::new();
                assert(notice_views(notices@) =~= Seq::<NoticeView>::empty());
                Step { notices, action: Action::Finish { success: true } }
            },
            _ => {
                let error = failure(event);
                self.abort(error)
            },
        }
    }

    /// Takes the driver's report of the pending action, changes the
    /// registry where an installation or a removal was completed, and says
    /// what to show and what to do next.
    pub fn step(&mut self, config: &mut Config, event: Event) -> (step: Step)
        ensures
            ({
                let turn = run_step(old(self)@, old(config)@, event@);
                &&& final(self)@ == turn.run
                &&& final(config)@ == turn.config
                &&& notice_views(step.notices@) == turn.notices
                &&& step.action@ == turn.action
            }),
    {
        match self.phase {
            Phase::Stopping => self.stopped(config, event),
            Phase::Installing => self.installing(config, event),
            Phase::Removing => self.removing(config, event),
            Phase::Starting => self.started(event),
            Phase::Saving => self.saved(config, event),
            Phase::Finished => {
                let notices: Vec<Notice> = Vec::new();
                assert(notice_views(notices@) =~= Seq::<NoticeView>::empty());
                Step { notices, action: Action::Finish { success: !self.failed } }
            },
        }
    }
}

/// Whether the host is started again after a command: unless the caller or
/// the configuration opted out.
pub open spec fn restart_of(c: ConfigView, no_restart: bool) -> bool {
    !(no_restart || c.no_restart)
}

/// The job that adds a plugin.
pub open spec fn add_job(
    name: Seq<char>,
    repo: Seq<char>,
    version: Option<Seq<char>>,
    pattern: Option<Seq<char>>,
) -> JobView {
    JobView { kind: Kind::Add, name, version, repo, pattern }
}

/// One job of a kind for each name, in the names' order. The first names
/// get the versions, one each, as far as there are versions; the others get
/// none.
pub open spec fn jobs_of(kind: Kind, names: Seq<Seq<char>>, versions: Seq<Seq<char>>) -> Seq<JobView> {
    Seq::new(
        names.len(),
        |i: int|
            JobView {
                kind,
                name: names[i],
                version: if i < versions.len() {
                    Some(versions[i])
                } else {
                    None
                },
                repo: Seq::empty(),
                pattern: None,
            },
    )
}

/// The names that are not pinned, in their order.
pub open spec fn unpinned(names: Seq<Seq<char>>, pin: Option<Set<Seq<char>>>) -> Seq<Seq<char>>
    decreases names.len(),
{
    if names.len() == 0 {
        Seq::empty()
    } else {
        let front = unpinned(names.drop_last(), pin);
        if pin is Some && pin->Some_0.contains(names.last()) {
            front
        } else {
            front.push(names.last())
        }
    }
}

/// The names that are not pinned are those of the given names that no pin
/// holds; without pins they are all the names.
pub proof fn lemma_unpinned(names: Seq<Seq<char>>, pin: Option<Set<Seq<char>>>)
    ensures
        pin is None ==> unpinned(names, pin) == names,
        forall|k: Seq<char>| #[trigger]
            unpinned(names, pin).contains(k) ==> names.contains(k) && !(pin is Some
                && pin->Some_0.contains(k)),
        forall|k: Seq<char>| #[trigger]
            names.contains(k) && !(pin is Some && pin->Some_0.contains(k)) ==> unpinned(
                names,
                pin,
            ).contains(k),
    decreases names.len(),
{
    if names.len() == 0 {
        assert(unpinned(names, pin) =~= names);
    } else {
        let front = names.drop_last();
        let last = names.last();
        lemma_unpinned(front, pin);
        let out = unpinned(names, pin);
        let inner = unpinned(front, pin);
        let held = pin is Some && pin->Some_0.contains(last);
        if pin is None {
            assert(front.push(last) =~= names);
        }
        assert forall|k: Seq<char>| #[trigger] out.contains(k) implies names.contains(k) && !(pin
            is Some && pin->Some_0.contains(k)) by {
            let i = choose|i: int| 0 <= i < out.len() && out[i] == k;
            if !held && i == out.len() - 1 {
                assert(names[names.len() - 1] == k);
            } else {
                assert(inner[i] == k);
                assert(inner.contains(k));
                let j = choose|j: int| 0 <= j < front.len() && front[j] == k;
                assert(names[j] == k);
            }
        }
        assert forall|k: Seq<char>| #[trigger]
            names.contains(k) && !(pin is Some && pin->Some_0.contains(
                k,
            )) implies out.contains(k) by {
            let j = choose|j: int| 0 <= j < names.len() && names[j] == k;
            if j == names.len() - 1 {
                assert(out[out.len() - 1] == k);
            } else {
                assert(front[j] == k);
                assert(front.contains(k));
                let i = choose|i: int| 0 <= i < inner.len() && inner[i] == k;
                assert(out[i] == k);
            }
        }
    }
}

/// The versions that were given, or none.
pub open spec fn given_versions(versions: Option<Vec<String>>) -> Seq<Seq<char>> {
    match versions {
        Some(v) => views(v@),
        None => Seq::empty(),
    }
}

/// One job of a kind for each name.
fn jobs_for(kind: Kind, names: &Vec<String>, versions: &Option<Vec<String>>) -> (jobs: Vec<Job>)
    ensures
        job_views(jobs@) == jobs_of(kind, views(names@), given_versions(*versions)),
{
    let mut jobs: Vec<Job> = Vec::new();
    let mut i: usize = 0;
    while i < names.len()
        invariant
            i <= names.len(),
            jobs.len() == i,
            forall|j: int|
                0 <= j < i ==> (#[trigger] jobs@[j])@ == jobs_of(
                    kind,
                    views(names@),
                    given_versions(*versions),
                )[j],
        decreases names.len() - i,
    {
        let version = match versions {
            Some(v) => if i < v.len() {
                Some(v[i].clone())
            } else {
                None
            },
            None => None,
        };
        jobs.push(
            Job { kind, name: names[i].clone(), version, repo: String::new(), pattern: None },
        );
        i = i + 1;
    }
    assert(job_views(jobs@) =~= jobs_of(kind, views(names@), given_versions(*versions)));
    jobs
}

impl Config {
    /// Whether the host is started again after a command.
    fn restarts(&self, no_restart: bool) -> (r: bool)
        ensures
            r == restart_of(self@, no_restart),
    {
        !(no_restart || self.no_restart())
    }

    /// The names that are not pinned, in the order in which the plugins
    /// are walked.
    pub fn unpinned_names(&self) -> (r: Vec<String>)
        ensures
            views(r@) == unpinned(self.order(), self@.pin),
    {
        let names = self.names();
        let mut r: Vec<String> = Vec::new();
        let mut i: usize = 0;
        assert(views(r@) =~= Seq::<Seq<char>>::empty());
        while i < names.len()
            invariant
                i <= names.len(),
                views(r@) == unpinned(views(names@).take(i as int), self@.pin),
            decreases names.len() - i,
        {
            proof {
                assert(views(names@).take(i + 1).drop_last() == views(names@).take(i as int));
                assert(views(names@).take(i + 1).last() == names@[i as int]@);
            }
            if !self.pinned(names[i].as_str()) {
                let ghost before = views(r@);
                r.push(names[i].clone());
                assert(views(r@) =~= before.push(names@[i as int]@));
            }
            i = i + 1;
        }
        assert(views(names@).take(i as int) == views(names@));
        r
    }

    /// Begins the command that adds the plugin `name` from `repo`, in the
    /// release tagged `version` or in the latest. A name that is installed
    /// already is refused, before the host is touched.
    pub fn add(
        &self,
        name: &str,
        repo: String,
        version: Option<String>,
        pattern: Option<String>,
        no_restart: bool,
    ) -> (r: Result<(Run, Action), Error>)
        ensures
            match r {
                Ok((run, action)) => {
                    &&& !self@.plugins.dom().contains(name@)
                    &&& (run@, action@) == run_begin(
                        seq![add_job(name@, repo@, opt_view(version), opt_view(pattern))],
                        restart_of(self@, no_restart),
                        true,
                        self@.admin,
                    )
                },
                Err(e) => self@.plugins.dom().contains(name@) && e@ == ErrorView::AlreadyExists,
            },
    {
        if self.contains(name) {
            return Err(Error::AlreadyExists);
        }
        let mut jobs: Vec<Job> = Vec::new();
        jobs.push(Job { kind: Kind::Add, name: name.to_owned(), version, repo, pattern });
        assert(job_views(jobs@) =~= seq![
            add_job(name@, repo@, opt_view(version), opt_view(pattern)),
        ]);
        Ok(Run::begin(jobs, self.restarts(no_restart), true, self.admin()))
    }

    /// Begins the command that updates the plugins `names`, in this order.
    /// The first names are brought to `versions`, one each, as far as there
    /// are versions; the others to their latest releases. A failure with
    /// one plugin does not keep the others from being updated.
    pub fn update(&self, names: Vec<String>, versions: Option<Vec<String>>, no_restart: bool) -> (r:
        (Run, Action))
        ensures
            (r.0@, r.1@) == run_begin(
                jobs_of(Kind::Update, views(names@), given_versions(versions)),
                restart_of(self@, no_restart),
                false,
                self@.admin,
            ),
    {
        let jobs = jobs_for(Kind::Update, &names, &versions);
        Run::begin(jobs, self.restarts(no_restart), false, self.admin())
    }

    /// Begins the command that updates every plugin that is not pinned to
    /// its latest release.
    pub fn update_all(&self, no_restart: bool) -> (r: (Run, Action))
        ensures
            (r.0@, r.1@) == run_begin(
                jobs_of(Kind::Update, unpinned(self.order(), self@.pin), Seq::empty()),
                restart_of(self@, no_restart),
                false,
                self@.admin,
            ),
    {
        let names = self.unpinned_names();
        let jobs = jobs_for(Kind::Update, &names, &None);
        Run::begin(jobs, self.restarts(no_restart), false, self.admin())
    }

    /// Begins the command that removes the plugins `names`, in this order.
    pub fn remove(&self, names: Vec<String>, no_restart: bool) -> (r: (Run, Action))
        ensures
            (r.0@, r.1@) == run_begin(
                jobs_of(Kind::Remove, views(names@), Seq::empty()),
                restart_of(self@, no_restart),
                false,
                self@.admin,
            ),
    {
        let jobs = jobs_for(Kind::Remove, &names, &None);
        Run::begin(jobs, self.restarts(no_restart), false, self.admin())
    }

    /// Begins the command that installs every plugin of the registry again,
    /// in the version that is recorded. The first failure ends it.
    pub fn import_plugins(&self, no_restart: bool) -> (r: (Run, Action))
        ensures
            (r.0@, r.1@) == run_begin(
                jobs_of(Kind::Import, self.order(), Seq::empty()),
                restart_of(self@, no_restart),
                true,
                self@.admin,
            ),
    {
        let names = self.names();
        let jobs = jobs_for(Kind::Import, &names, &None);
        Run::begin(jobs, self.restarts(no_restart), true, self.admin())
    }
}

/// An update that finds the release that is recorded changes nothing: the
/// registry stays as it is, the plugin is reported as up to date, and what
/// follows is the next job's first action; nothing is fetched or written
/// for this plugin.
pub proof fn lemma_update_is_idempotent(r: RunView, c: ConfigView, release: crate::release::ReleaseView)
    requires
        r.phase == Phase::Installing,
        r.next < r.jobs.len(),
        r.jobs[r.next as int].kind == Kind::Update,
        c.plugins.dom().contains(r.jobs[r.next as int].name),
        r.install == Some(install_begin(request_of(r.jobs[r.next as int], c)).0),
        release.tag == c.plugins[r.jobs[r.next as int].name].version,
    ensures
        run_step(r, c, EventView::Fetched(release)) == move_on(
            r,
            c,
            NoticeView::UpToDate { name: r.jobs[r.next as int].name, version: release.tag },
        ),
        run_step(r, c, EventView::Fetched(release)).config == c,
{
}

/// After an update was completed, the registry records the tag of the
/// release that was installed, so that a second update that resolves to the
/// same release finds it recorded.
pub proof fn lemma_update_records_tag(r: RunView, c: ConfigView, tag: Seq<char>)
    requires
        r.next < r.jobs.len(),
        r.jobs[r.next as int].kind == Kind::Update,
        c.plugins.dom().contains(r.jobs[r.next as int].name),
    ensures
        ({
            let after = job_done(r, c, OutcomeView::Installed(tag)).config;
            let name = r.jobs[r.next as int].name;
            &&& after.plugins.dom() == c.plugins.dom()
            &&& after.plugins[name] == (PluginView { version: tag, ..c.plugins[name] })
            &&& forall|other: Seq<char>|
                other != name && c.plugins.dom().contains(other) ==> after.plugins[other]
                    == c.plugins[other]
        }),
{
    let name = r.jobs[r.next as int].name;
    let after = job_done(r, c, OutcomeView::Installed(tag)).config;
    assert(after.plugins.dom() =~= c.plugins.dom());
}

/// A step changes the registry only when it completes an installation or a
/// removal: whatever else is reported, and however an installation fails,
/// every record stays as it was.
pub proof fn lemma_registry_changes_on_completion(r: RunView, c: ConfigView, e: EventView)
    ensures
        run_step(r, c, e).config == c || (r.phase == Phase::Removing && e == EventView::Done) || (
        r.phase == Phase::Installing && install_step(r.install->Some_0, e).1 is Finished
            && install_step(r.install->Some_0, e).1->Finished_0 is Installed),
        run_step(r, c, e).config.plugins != c.plugins ==> (ConfigView {
            plugins: c.plugins,
            ..run_step(r, c, e).config
        }) == c,
{
}

/// An installation ends as installed only from the removal of the archive;
/// the archive is removed only after the staging directory took the plugin
/// directory's place; and that happens only after the extraction was
/// reported as done. No failure on the way ends an installation as
/// installed, touches the plugin's directory or removes the archive.
pub proof fn lemma_installed_only_after_promotion(s: InstallView, e: EventView)
    ensures
        install_step(s, e).1 is Finished && install_step(s, e).1->Finished_0 is Installed
            ==> s.stage == crate::install::Stage::Cleaning,
        install_step(s, e).1 is Perform && install_step(s, e).1->Perform_0 is RemoveFile
            ==> s.stage == crate::install::Stage::Promoting && e == EventView::Done,
        install_step(s, e).1 is Perform && install_step(s, e).1->Perform_0 is Promote ==> s.stage
            == crate::install::Stage::Extracting && e == EventView::Done,
{
}

} // verus!
