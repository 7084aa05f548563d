//! The installation of one plugin, step by step: resolve the release, pick
//! an asset, fetch it, unpack it beside the plugin's directory, and only
//! then put it in place.

use vstd::prelude::*;
use vstd::string::*;

use crate::action::{Action, ActionView, Event, EventView};
use crate::arch::Arch;
use crate::error::{Error, ErrorView};
use crate::extract::{plan_extraction, plan_of, ArchiveEntry, EntryView};
use crate::release::{
    asset_views, http_failure, http_failure_of, is_current, release_url, release_url_of,
    request_headers, request_headers_of, Asset, AssetView, ReleaseMetadata, ReleaseView,
};
use crate::registry::{Plugin, PluginView};
use crate::select::{chosen, manual_select, select_asset, selection_of, Selection};
use crate::text::{clone_opt, concat2, opt_str_view, opt_view, views};

verus! {

/// What is to be installed, and how its asset is picked.
#[derive(Clone, Debug, PartialEq, Eq)]
pub struct Request {
    /// The name of the plugin, and of its directory.
    pub name: String,
    /// The repository, as `owner/name`.
    pub repo: String,
    /// The tag to install; the latest release where there is none.
    pub version: Option<String>,
    /// The version that is installed: a release with this tag is not
    /// installed again.
    pub current: Option<String>,
    /// The pattern that picks the asset, in place of the architecture.
    pub pattern: Option<String>,
    /// The architecture of this machine.
    pub arch: Arch,
    /// The token sent to the release API.
    pub token: Option<String>,
}

/// The mathematical value of a [`Request`].
pub struct RequestView {
    pub name: Seq<char>,
    pub repo: Seq<char>,
    pub version: Option<Seq<char>>,
    pub current: Option<Seq<char>>,
    pub pattern: Option<Seq<char>>,
    pub arch: Arch,
    pub token: Option<Seq<char>>,
}

impl View for Request {
    type V = RequestView;

    open spec fn view(&self) -> RequestView {
        RequestView {
            name: self.name@,
            repo: self.repo@,
            version: opt_view(self.version),
            current: opt_view(self.current),
            pattern: opt_view(self.pattern),
            arch: self.arch,
            token: opt_view(self.token),
        }
    }
}

/// Which answer an installation waits for.
#[derive(Clone, Copy, Debug, PartialEq, Eq, Structural)]
pub enum Stage {
    /// The release's metadata.
    Resolving,
    /// The user's choice among the assets.
    Choosing,
    /// The end of the download.
    Downloading,
    /// The archive's entries.
    Listing,
    /// The end of the extraction into the staging directory.
    Extracting,
    /// The staging directory taking the plugin directory's place.
    Promoting,
    /// The removal of a staging directory that was not completed.
    Discarding,
    /// The removal of the downloaded archive. The plugin is in place by
    /// then: an archive that cannot be removed does not undo that.
    Cleaning,
    /// Nothing: the installation has ended.
    Over,
}

/// How an installation ended.
#[derive(Clone, Debug, PartialEq, Eq)]
pub enum Outcome {
    /// The release with this tag is now installed.
    Installed(String),
    /// The release with this tag was installed already; nothing was fetched
    /// or written.
    UpToDate(String),
    /// Nothing was put in the plugin directory's place.
    Failed(Error),
}

/// The mathematical value of an [`Outcome`].
pub enum OutcomeView {
    Installed(Seq<char>),
    UpToDate(Seq<char>),
    Failed(ErrorView),
}

impl View for Outcome {
    type V = OutcomeView;

    open spec fn view(&self) -> OutcomeView {
        match self {
            Outcome::Installed(tag) => OutcomeView::Installed(tag@),
            Outcome::UpToDate(tag) => OutcomeView::UpToDate(tag@),
            Outcome::Failed(e) => OutcomeView::Failed(e@),
        }
    }
}

/// What follows a step of an installation.
#[derive(Clone, Debug, PartialEq, Eq)]
pub enum Progress {
    /// The driver carries out this action and reports back.
    Perform(Action),
    /// The installation has ended.
    Finished(Outcome),
}

/// The mathematical value of a [`Progress`].
pub enum ProgressView {
    Perform(ActionView),
    Finished(OutcomeView),
}

impl View for Progress {
    type V = ProgressView;

    open spec fn view(&self) -> ProgressView {
        match self {
            Progress::Perform(a) => ProgressView::Perform(a@),
            Progress::Finished(o) => ProgressView::Finished(o@),
        }
    }
}

/// An installation under way.
#[derive(Debug)]
pub struct Install {
    request: Request,
    stage: Stage,
    tag: String,
    file: String,
    assets: Vec<Asset>,
    failure: Option<Error>,
}

/// The mathematical value of an [`Install`].
pub struct InstallView {
    pub request: RequestView,
    pub stage: Stage,
    /// The tag of the resolved release; empty before.
    pub tag: Seq<char>,
    /// The file that holds the downloaded archive; empty before.
    pub file: Seq<char>,
    /// The assets of the resolved release; empty before.
    pub assets: Seq<AssetView>,
    /// Why the extraction failed, while its leftovers are removed.
    pub failure: Option<ErrorView>,
}

/// The directory, beside the plugin's, into which an archive is unpacked.
pub open spec fn staging_of(name: Seq<char>) -> Seq<char> {
    name + ".staging"@
}

/// The names of the assets.
pub open spec fn asset_names(assets: Seq<AssetView>) -> Seq<Seq<char>> {
    assets.map_values(|a: AssetView| a.name)
}

/// The state and the first action of an installation.
pub open spec fn install_begin(request: RequestView) -> (InstallView, ActionView) {
    (
        InstallView {
            request,
            stage: Stage::Resolving,
            tag: Seq::empty(),
            file: Seq::empty(),
            assets: Seq::empty(),
            failure: None,
        },
        ActionView::Fetch {
            url: release_url_of(request.repo, request.version),
            headers: request_headers_of(request.token),
        },
    )
}

/// The end of an installation in an error.
pub open spec fn failed(s: InstallView, e: ErrorView) -> (InstallView, ProgressView) {
    (InstallView { stage: Stage::Over, ..s }, ProgressView::Finished(OutcomeView::Failed(e)))
}

/// The download of the asset at `at`.
pub open spec fn download(s: InstallView, at: int) -> (InstallView, ProgressView) {
    (
        InstallView { stage: Stage::Downloading, file: s.assets[at].name, ..s },
        ProgressView::Perform(
            ActionView::Download { url: s.assets[at].download_url, file: s.assets[at].name },
        ),
    )
}

/// What follows the metadata of the release: nothing where its tag is the
/// installed version; else the download of the selected asset, or the
/// question to the user.
pub open spec fn on_release(s: InstallView, release: ReleaseView) -> (InstallView, ProgressView) {
    if s.request.current == Some(release.tag) {
        (
            InstallView { stage: Stage::Over, ..s },
            ProgressView::Finished(OutcomeView::UpToDate(release.tag)),
        )
    } else {
        let known = InstallView { tag: release.tag, assets: release.assets, ..s };
        match selection_of(release.assets, s.request.pattern, s.request.arch) {
            Err(e) => failed(known, e),
            Ok(Selection::Picked(at)) => download(known, at as int),
            Ok(Selection::Manual) => (
                InstallView { stage: Stage::Choosing, ..known },
                ProgressView::Perform(ActionView::Choose { names: asset_names(release.assets) }),
            ),
        }
    }
}

/// What follows the user's answer.
pub open spec fn on_answer(s: InstallView, answer: Seq<char>) -> (InstallView, ProgressView) {
    match chosen(s.assets.len(), answer) {
        Some(at) => download(s, at as int),
        None => failed(s, ErrorView::InvalidSelection),
    }
}

/// What follows the list of the archive's entries.
pub open spec fn on_entries(s: InstallView, entries: Seq<EntryView>) -> (InstallView, ProgressView) {
    match plan_of(entries, staging_of(s.request.name)) {
        Some(steps) => (
            InstallView { stage: Stage::Extracting, ..s },
            ProgressView::Perform(ActionView::Extract { file: s.file, steps }),
        ),
        None => failed(s, ErrorView::MalformedArchive),
    }
}

/// The step of an installation in state `s` on the report `e`.
pub open spec fn install_step(s: InstallView, e: EventView) -> (InstallView, ProgressView) {
    match s.stage {
        Stage::Resolving => match e {
            EventView::Fetched(release) => on_release(s, release),
            EventView::Refused { reason } => failed(
                s,
                ErrorView::HttpError(http_failure_of(s.request.version, reason)),
            ),
            EventView::Failed(err) => failed(s, err),
            _ => failed(s, ErrorView::Unexpected),
        },
        Stage::Choosing => match e {
            EventView::Answer(answer) => on_answer(s, answer),
            EventView::Failed(err) => failed(s, err),
            _ => failed(s, ErrorView::Unexpected),
        },
        Stage::Downloading => match e {
            EventView::Done => (
                InstallView { stage: Stage::Listing, ..s },
                ProgressView::Perform(ActionView::ListArchive { file: s.file }),
            ),
            EventView::Failed(err) => failed(s, err),
            _ => failed(s, ErrorView::Unexpected),
        },
        Stage::Listing => match e {
            EventView::Entries(entries) => on_entries(s, entries),
            EventView::Failed(err) => failed(s, err),
            _ => failed(s, ErrorView::Unexpected),
        },
        Stage::Extracting => match e {
            EventView::Done => (
                InstallView { stage: Stage::Promoting, ..s },
                ProgressView::Perform(
                    ActionView::Promote { from: staging_of(s.request.name), to: s.request.name },
                ),
            ),
            EventView::Failed(err) => (
                InstallView { stage: Stage::Discarding, failure: Some(err), ..s },
                ProgressView::Perform(ActionView::Discard { dir: staging_of(s.request.name) }),
            ),
            _ => failed(s, ErrorView::Unexpected),
        },
        Stage::Promoting => match e {
            EventView::Done => (
                InstallView { stage: Stage::Cleaning, ..s },
                ProgressView::Perform(ActionView::RemoveFile { file: s.file }),
            ),
            EventView::Failed(err) => failed(s, err),
            _ => failed(s, ErrorView::Unexpected),
        },
        Stage::Cleaning => match e {
            EventView::Done | EventView::Failed(_) => (
                InstallView { stage: Stage::Over, ..s },
                ProgressView::Finished(OutcomeView::Installed(s.tag)),
            ),
            _ => failed(s, ErrorView::Unexpected),
        },
        Stage::Discarding => match e {
            EventView::Done | EventView::Failed(_) => failed(
                s,
                match s.failure {
                    Some(err) => err,
                    None => ErrorView::Unexpected,
                },
            ),
            _ => failed(s, ErrorView::Unexpected),
        },
        Stage::Over => failed(s, ErrorView::Unexpected),
    }
}

/// The names of the assets, in order.
fn names_of_assets(assets: &Vec<Asset>) -> (names: Vec<String>)
    ensures
        views(names@) == asset_names(asset_views(assets@)),
{
    let mut names: Vec<String> = Vec::new();
    let mut i: usize = 0;
    while i < assets.len()
        invariant
            i <= assets.len(),
            names.len() == i,
            forall|j: int| 0 <= j < i ==> names@[j]@ == assets@[j].name@,
        decreases assets.len() - i,
    {
        names.push(assets[i].name.clone());
        i = i + 1;
    }
    assert(views(names@) =~= asset_names(asset_views(assets@)));
    names
}

impl Install {
    /// The installation as a mathematical value.
    pub closed spec fn view(&self) -> InstallView {
        InstallView {
            request: self.request@,
            stage: self.stage,
            tag: self.tag@,
            file: self.file@,
            assets: asset_views(self.assets@),
            failure: crate::action::opt_error_view(self.failure),
        }
    }

    /// Begins an installation: the first action asks for the metadata of
    /// the wanted release.
    pub fn begin(request: Request) -> (r: (Install, Action))
        ensures
            (r.0@, r.1@) == install_begin(request@),
    {
        let url = release_url(
            request.repo.as_str(),
            match &request.version {
                Some(v) => Some(v.as_str()),
                None => None,
            },
        );
        let headers = request_headers(
            match &request.token {
                Some(t) => Some(t.as_str()),
                None => None,
            },
        );
        let install = Install {
            request,
            stage: Stage::Resolving,
            tag: String::new(),
            file: String::new(),
            assets: Vec::new(),
            failure: None,
        };
        assert(asset_views(install.assets@) =~= Seq::<AssetView>::empty());
        (install, Action::Fetch { url, headers })
    }

    /// Which answer the installation waits for.
    pub fn stage(&self) -> (s: Stage)
        ensures
            s == self@.stage,
    {
        self.stage
    }

    /// The name of the plugin that is installed.
    pub fn name(&self) -> (n: &String)
        ensures
            n@ == self@.request.name,
    {
        &self.request.name
    }

    /// The directory into which the archive is unpacked.
    fn staging(&self) -> (dir: String)
        ensures
            dir@ == staging_of(self@.request.name),
    {
        concat2(self.request.name.as_str(), ".staging")
    }

    fn fail(&mut self, e: Error) -> (p: Progress)
        ensures
            (final(self)@, p@) == failed(old(self)@, e@),
    {
        self.stage = Stage::Over;
        Progress::Finished(Outcome::Failed(e))
    }

    fn fetch(&mut self, at: usize) -> (p: Progress)
        requires
            at < old(self)@.assets.len(),
        ensures
            (final(self)@, p@) == download(old(self)@, at as int),
    {
        assert(asset_views(self.assets@)[at as int] == self.assets@[at as int]@);
        self.stage = Stage::Downloading;
        self.file = self.assets[at].name.clone();
        Progress::Perform(
            Action::Download {
                url: self.assets[at].download_url.clone(),
                file: self.assets[at].name.clone(),
            },
        )
    }

    fn released(&mut self, release: ReleaseMetadata) -> (p: Progress)
        ensures
            (final(self)@, p@) == on_release(old(self)@, release@),
    {
        let current = match &self.request.current {
            Some(c) => Some(c.as_str()),
            None => None,
        };
        if is_current(release.tag.as_str(), current) {
            self.stage = Stage::Over;
            return Progress::Finished(Outcome::UpToDate(release.tag));
        }
        let pattern = match &self.request.pattern {
            Some(p) => Some(p.as_str()),
            None => None,
        };
        let selection = select_asset(&release.assets, pattern, &self.request.arch);
        proof {
            crate::select::lemma_find_wanted(
                asset_views(release.assets@),
                old(self)@.request.pattern,
                self.request.arch,
            );
        }
        self.tag = release.tag;
        self.assets = release.assets;
        match selection {
            Err(e) => self.fail(e),
            Ok(Selection::Picked(at)) => self.fetch(at),
            Ok(Selection::Manual) => {
                self.stage = Stage::Choosing;
                Progress::Perform(Action::Choose { names: names_of_assets(&self.assets) })
            },
        }
    }

    fn answered(&mut self, answer: String) -> (p: Progress)
        ensures
            (final(self)@, p@) == on_answer(old(self)@, answer@),
    {
        match manual_select(&self.assets, answer.as_str()) {
            Ok(at) => self.fetch(at),
            Err(e) => self.fail(e),
        }
    }

    fn listed(&mut self, entries: Vec<ArchiveEntry>) -> (p: Progress)
        ensures
            (final(self)@, p@) == on_entries(old(self)@, crate::extract::entry_views(entries@)),
    {
        let staging = self.staging();
        match plan_extraction(&entries, staging.as_str()) {
            Ok(plan) => {
                self.stage = Stage::Extracting;
                Progress::Perform(Action::Extract { file: self.file.clone(), steps: plan.steps })
            },
            Err(e) => self.fail(e),
        }
    }

    /// Takes the driver's report of the pending action and says what
    /// follows: the next action, or how the installation ended.
    pub fn step(&mut self, event: Event) -> (p: Progress)
        ensures
            (final(self)@, p@) == install_step(old(self)@, event@),
    {
        match self.stage {
            Stage::Resolving => match event {
                Event::Fetched(release) => self.released(release),
                Event::Refused { reason } => {
                    let e = http_failure(
                        match &self.request.version {
                            Some(v) => Some(v.as_str()),
                            None => None,
                        },
                        match &reason {
                            Some(r) => Some(r.as_str()),
                            None => None,
                        },
                    );
                    self.fail(e)
                },
                Event::Failed(e) => self.fail(e),
                _ => self.fail(Error::Unexpected),
            },
            Stage::Choosing => match event {
                Event::Answer(answer) => self.answered(answer),
                Event::Failed(e) => self.fail(e),
                _ => self.fail(Error::Unexpected),
            },
            Stage::Downloading => match event {
                Event::Done => {
                    self.stage = Stage::Listing;
                    Progress::Perform(Action::ListArchive { file: self.file.clone() })
                },
                Event::Failed(e) => self.fail(e),
                _ => self.fail(Error::Unexpected),
            },
            Stage::Listing => match event {
                Event::Entries(entries) => self.listed(entries),
                Event::Failed(e) => self.fail(e),
                _ => self.fail(Error::Unexpected),
            },
            Stage::Extracting => match event {
                Event::Done => {
                    self.stage = Stage::Promoting;
                    Progress::Perform(
                        Action::Promote { from: self.staging(), to: self.request.name.clone() },
                    )
                },
                Event::Failed(e) => {
                    self.stage = Stage::Discarding;
                    self.failure = Some(e);
                    Progress::Perform(Action::Discard { dir: self.staging() })
                },
                _ => self.fail(Error::Unexpected),
            },
            Stage::Promoting => match event {
                Event::Done => {
                    self.stage = Stage::Cleaning;
                    Progress::Perform(Action::RemoveFile { file: self.file.clone() })
                },
                Event::Failed(e) => self.fail(e),
                _ => self.fail(Error::Unexpected),
            },
            Stage::Cleaning => match event {
                Event::Done | Event::Failed(_) => {
                    self.stage = Stage::Over;
                    Progress::Finished(Outcome::Installed(self.tag.clone()))
                },
                _ => self.fail(Error::Unexpected),
            },
            Stage::Discarding => match event {
                Event::Done | Event::Failed(_) => {
                    let e = match &self.failure {
                        Some(e) => e.duplicate(),
                        None => Error::Unexpected,
                    };
                    self.fail(e)
                },
                _ => self.fail(Error::Unexpected),
            },
            Stage::Over => self.fail(Error::Unexpected),
        }
    }
}

/// The request that installs a plugin for the first time.
pub open spec fn add_request(
    name: Seq<char>,
    repo: Seq<char>,
    version: Option<Seq<char>>,
    arch: Arch,
    pattern: Option<Seq<char>>,
    token: Option<Seq<char>>,
) -> RequestView {
    RequestView { name, repo, version, current: None, pattern, arch, token }
}

/// The request that brings a plugin to `version`, or to the latest release:
/// a release with the recorded version's tag is not installed again.
pub open spec fn update_request(
    plugin: PluginView,
    name: Seq<char>,
    arch: Arch,
    version: Option<Seq<char>>,
    token: Option<Seq<char>>,
) -> RequestView {
    RequestView {
        name,
        repo: plugin.repo,
        version,
        current: Some(plugin.version),
        pattern: plugin.pattern,
        arch,
        token,
    }
}

/// The request that installs a plugin again, in the version that is
/// recorded.
pub open spec fn force_request(
    plugin: PluginView,
    name: Seq<char>,
    arch: Arch,
    token: Option<Seq<char>>,
) -> RequestView {
    RequestView {
        name,
        repo: plugin.repo,
        version: Some(plugin.version),
        current: None,
        pattern: plugin.pattern,
        arch,
        token,
    }
}

fn owned(item: Option<&str>) -> (r: Option<String>)
    ensures
        opt_view(r) == opt_str_view(item),
{
    match item {
        Some(s) => Some(s.to_owned()),
        None => None,
    }
}

impl Plugin {
    /// The request that adds a plugin in the given version, or in the
    /// latest.
    pub fn add(
        name: &str,
        repo: String,
        version: Option<String>,
        arch: &Arch,
        pattern: Option<String>,
        token: Option<&str>,
    ) -> (r: Request)
        ensures
            r@ == add_request(
                name@,
                repo@,
                opt_view(version),
                *arch,
                opt_view(pattern),
                opt_str_view(token),
            ),
    {
        Request {
            name: name.to_owned(),
            repo,
            version,
            current: None,
            pattern,
            arch: *arch,
            token: owned(token),
        }
    }

    /// The request that updates this plugin to the latest release.
    pub fn update(&self, name: &str, arch: &Arch, token: Option<&str>) -> (r: Request)
        ensures
            r@ == update_request(self@, name@, *arch, None, opt_str_view(token)),
    {
        Request {
            name: name.to_owned(),
            repo: self.repo.clone(),
            version: None,
            current: Some(self.version.clone()),
            pattern: clone_opt(&self.pattern),
            arch: *arch,
            token: owned(token),
        }
    }

    /// The request that updates this plugin to the release tagged
    /// `version`.
    pub fn update_to(&self, name: &str, arch: &Arch, version: &str, token: Option<&str>) -> (r:
        Request)
        ensures
            r@ == update_request(self@, name@, *arch, Some(version@), opt_str_view(token)),
    {
        Request {
            name: name.to_owned(),
            repo: self.repo.clone(),
            version: Some(version.to_owned()),
            current: Some(self.version.clone()),
            pattern: clone_opt(&self.pattern),
            arch: *arch,
            token: owned(token),
        }
    }

    /// The request that installs this plugin again in its recorded
    /// version, whatever is on disk.
    pub fn force_update(&self, name: &str, arch: &Arch, token: Option<&str>) -> (r: Request)
        ensures
            r@ == force_request(self@, name@, *arch, opt_str_view(token)),
    {
        Request {
            name: name.to_owned(),
            repo: self.repo.clone(),
            version: Some(self.version.clone()),
            current: None,
            pattern: clone_opt(&self.pattern),
            arch: *arch,
            token: owned(token),
        }
    }

    /// The action that removes the directory of the plugin `name`.
    pub fn remove(name: &str) -> (a: Action)
        ensures
            a@ == (ActionView::RemoveDir { name: name@ }),
    {
        Action::RemoveDir { name: name.to_owned() }
    }
}

/// Begins the installation of the release of `repo` tagged `version`, or of
/// its latest release, under the name `root_name`. A release whose tag is
/// `current_version` is not installed again.
pub fn gh_dl(
    root_name: &str,
    repo: &str,
    version: Option<&str>,
    arch: &Arch,
    current_version: Option<&str>,
    pattern: Option<&str>,
    token: Option<&str>,
) -> (r: (Install, Action))
    ensures
        (r.0@, r.1@) == install_begin(
            RequestView {
                name: root_name@,
                repo: repo@,
                version: opt_str_view(version),
                current: opt_str_view(current_version),
                pattern: opt_str_view(pattern),
                arch: *arch,
                token: opt_str_view(token),
            },
        ),
{
    Install::begin(
        Request {
            name: root_name.to_owned(),
            repo: repo.to_owned(),
            version: owned(version),
            current: owned(current_version),
            pattern: owned(pattern),
            arch: *arch,
            token: owned(token),
        },
    )
}

} // verus!
