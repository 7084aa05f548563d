//! What the library asks its driver to do, and what the driver reports
//! back. The library decides; reading, writing, sending and waiting are the
//! driver's.

use vstd::prelude::*;
use vstd::string::*;

use crate::error::{message_of, Error, ErrorView};
use crate::extract::{entry_views, step_views, ArchiveEntry, EntryView, ExtractStep, StepView};
use crate::host::{HostCommand, HostCommandView};
use crate::release::{header_views, Header, ReleaseMetadata, ReleaseView};
use crate::text::{concat2, concat3, opt_view, views};

verus! {

/// One thing for the driver to do. Paths are relative to the plugin root.
#[derive(Clone, Debug, PartialEq, Eq)]
pub enum Action {
    /// Run a command that stops the host, and wait for it.
    StopHost(HostCommand),
    /// Run the host's executable, and leave it running.
    StartHost(HostCommand),
    /// Ask the release API for the metadata at `url`.
    Fetch { url: String, headers: Vec<Header> },
    /// Show the asset names, numbered from 0, and read one line.
    Choose { names: Vec<String> },
    /// Store what `url` holds in `file`.
    Download { url: String, file: String },
    /// Read the entries of the archive `file`.
    ListArchive { file: String },
    /// Carry out the steps, one for each entry of the archive `file`, in
    /// order, writing through the retrying executor.
    Extract { file: String, steps: Vec<ExtractStep> },
    /// Put the directory `from` in the place of the directory `to`.
    Promote { from: String, to: String },
    /// Delete the directory `dir`, if it is there.
    Discard { dir: String },
    /// Delete the file `file`.
    RemoveFile { file: String },
    /// Delete the plugin directory `name`, through the retrying executor.
    RemoveDir { name: String },
    /// Write the manifest.
    Save,
    /// Nothing is left to do; `success` says whether the command ended
    /// well.
    Finish { success: bool },
}

/// The mathematical value of an [`Action`].
pub enum ActionView {
    StopHost(HostCommandView),
    StartHost(HostCommandView),
    Fetch { url: Seq<char>, headers: Seq<(Seq<char>, Seq<char>)> },
    Choose { names: Seq<Seq<char>> },
    Download { url: Seq<char>, file: Seq<char> },
    ListArchive { file: Seq<char> },
    Extract { file: Seq<char>, steps: Seq<StepView> },
    Promote { from: Seq<char>, to: Seq<char> },
    Discard { dir: Seq<char> },
    RemoveFile { file: Seq<char> },
    RemoveDir { name: Seq<char> },
    Save,
    Finish { success: bool },
}

/// The value of an optional error.
pub open spec fn opt_error_view(e: Option<Error>) -> Option<ErrorView> {
    match e {
        Some(e) => Some(e@),
        None => None,
    }
}

impl View for Action {
    type V = ActionView;

    open spec fn view(&self) -> ActionView {
        match self {
            Action::StopHost(c) => ActionView::StopHost(c@),
            Action::StartHost(c) => ActionView::StartHost(c@),
            Action::Fetch { url, headers } => ActionView::Fetch {
                url: url@,
                headers: header_views(headers@),
            },
            Action::Choose { names } => ActionView::Choose { names: views(names@) },
            Action::Download { url, file } => ActionView::Download { url: url@, file: file@ },
            Action::ListArchive { file } => ActionView::ListArchive { file: file@ },
            Action::Extract { file, steps } => ActionView::Extract {
                file: file@,
                steps: step_views(steps@),
            },
            Action::Promote { from, to } => ActionView::Promote { from: from@, to: to@ },
            Action::Discard { dir } => ActionView::Discard { dir: dir@ },
            Action::RemoveFile { file } => ActionView::RemoveFile { file: file@ },
            Action::RemoveDir { name } => ActionView::RemoveDir { name: name@ },
            Action::Save => ActionView::Save,
            Action::Finish { success } => ActionView::Finish { success: *success },
        }
    }
}

/// What the driver reports of the action it was given.
#[derive(Clone, Debug, PartialEq, Eq)]
pub enum Event {
    /// The action was carried out.
    Done,
    /// The action failed.
    Failed(Error),
    /// The release API answered with a status other than success, with this
    /// reason phrase, if the status has one.
    Refused { reason: Option<String> },
    /// The release API answered with this metadata.
    Fetched(ReleaseMetadata),
    /// The user typed this line, without the blanks around it.
    Answer(String),
    /// The archive holds these entries, in this order.
    Entries(Vec<ArchiveEntry>),
}

/// The mathematical value of an [`Event`].
pub enum EventView {
    Done,
    Failed(ErrorView),
    Refused { reason: Option<Seq<char>> },
    Fetched(ReleaseView),
    Answer(Seq<char>),
    Entries(Seq<EntryView>),
}

impl View for Event {
    type V = EventView;

    open spec fn view(&self) -> EventView {
        match self {
            Event::Done => EventView::Done,
            Event::Failed(e) => EventView::Failed(e@),
            Event::Refused { reason } => EventView::Refused { reason: opt_view(*reason) },
            Event::Fetched(release) => EventView::Fetched(release@),
            Event::Answer(text) => EventView::Answer(text@),
            Event::Entries(entries) => EventView::Entries(entry_views(entries@)),
        }
    }
}

/// What is done with a plugin.
#[derive(Clone, Copy, Debug, PartialEq, Eq, Structural)]
pub enum Kind {
    /// It is installed for the first time.
    Add,
    /// It is brought to another version.
    Update,
    /// It is installed again, in the version that is recorded.
    Import,
    /// It is removed.
    Remove,
}

/// A line for the user.
#[derive(Clone, Debug, PartialEq, Eq)]
pub enum Notice {
    /// A plugin was installed in this version: `+ name@version`.
    Added { name: String, version: String },
    /// A plugin is installed in the wanted version already:
    /// `= name@version`.
    UpToDate { name: String, version: String },
    /// A plugin was removed: `- name`.
    Removed { name: String },
    /// What was to be done with a plugin failed.
    Failed { kind: Kind, name: String, error: Error },
    /// Something else failed: stopping or starting the host, or writing the
    /// manifest.
    Problem(Error),
}

/// The mathematical value of a [`Notice`].
pub enum NoticeView {
    Added { name: Seq<char>, version: Seq<char> },
    UpToDate { name: Seq<char>, version: Seq<char> },
    Removed { name: Seq<char> },
    Failed { kind: Kind, name: Seq<char>, error: ErrorView },
    Problem(ErrorView),
}

impl View for Notice {
    type V = NoticeView;

    open spec fn view(&self) -> NoticeView {
        match self {
            Notice::Added { name, version } => NoticeView::Added { name: name@, version: version@ },
            Notice::UpToDate { name, version } => NoticeView::UpToDate {
                name: name@,
                version: version@,
            },
            Notice::Removed { name } => NoticeView::Removed { name: name@ },
            Notice::Failed { kind, name, error } => NoticeView::Failed {
                kind: *kind,
                name: name@,
                error: error@,
            },
            Notice::Problem(e) => NoticeView::Problem(e@),
        }
    }
}

/// The values of a sequence of notices.
pub open spec fn notice_views(notices: Seq<Notice>) -> Seq<NoticeView> {
    notices.map_values(|n: Notice| n@)
}

/// The line that a notice is shown as, without its colours.
pub open spec fn notice_text(n: NoticeView) -> Seq<char> {
    match n {
        NoticeView::Added { name, version } => "+ "@ + name + "@"@ + version,
        NoticeView::UpToDate { name, version } => "= "@ + name + "@"@ + version,
        NoticeView::Removed { name } => "- "@ + name,
        NoticeView::Failed { kind, name, error } => "error: "@ + (match kind {
            Kind::Add => Seq::empty(),
            Kind::Update => "Failed to update "@ + name + ": "@,
            Kind::Import => "Failed to import "@ + name + ": "@,
            Kind::Remove => "Failed to remove "@ + name + ": "@,
        }) + message_of(error),
        NoticeView::Problem(error) => "error: "@ + message_of(error),
    }
}

impl Notice {
    /// The line that this notice is shown as, without its colours.
    pub fn text(&self) -> (r: String)
        ensures
            r@ == notice_text(self@),
    {
        match self {
            Notice::Added { name, version } => {
                let mut r = concat3("+ ", name.as_str(), "@");
                r.append(version.as_str());
                r
            },
            Notice::UpToDate { name, version } => {
                let mut r = concat3("= ", name.as_str(), "@");
                r.append(version.as_str());
                r
            },
            Notice::Removed { name } => concat2("- ", name.as_str()),
            Notice::Failed { kind, name, error } => {
                let mut r = "error: ".to_owned();
                let context = match kind {
                    Kind::Add => String::new(),
                    Kind::Update => concat3("Failed to update ", name.as_str(), ": "),
                    Kind::Import => concat3("Failed to import ", name.as_str(), ": "),
                    Kind::Remove => concat3("Failed to remove ", name.as_str(), ": "),
                };
                r.append(context.as_str());
                r.append(error.message().as_str());
                r
            },
            Notice::Problem(error) => concat2("error: ", error.message().as_str()),
        }
    }
}

} // verus!
