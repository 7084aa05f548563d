//! Host process coordination: how the host application is stopped and
//! started, and where its executable is looked for.

use vstd::prelude::*;
use vstd::string::*;

use crate::error::{Error, ErrorView};
use crate::text::{concat2, views};

verus! {

/// A process to run for the host's sake.
#[derive(Clone, Debug, PartialEq, Eq)]
pub struct HostCommand {
    /// The program to run.
    pub program: String,
    /// Its arguments, as one line.
    pub args: String,
    /// Whether it is run with elevated privileges.
    pub admin: bool,
    /// Whether its end is waited for (else it is left to run detached).
    pub wait: bool,
}

/// The mathematical value of a [`HostCommand`].
pub struct HostCommandView {
    pub program: Seq<char>,
    pub args: Seq<char>,
    pub admin: bool,
    pub wait: bool,
}

impl View for HostCommand {
    type V = HostCommandView;

    open spec fn view(&self) -> HostCommandView {
        HostCommandView {
            program: self.program@,
            args: self.args@,
            admin: self.admin,
            wait: self.wait,
        }
    }
}

/// The command that stops the host.
pub open spec fn kill_command(admin: bool) -> HostCommandView {
    HostCommandView {
        program: "taskkill.exe"@,
        args: "/F /FI \"IMAGENAME eq PowerToys*\""@,
        admin,
        wait: true,
    }
}

/// The command that starts the host from its executable.
pub open spec fn start_command(path: Seq<char>) -> HostCommandView {
    HostCommandView { program: path, args: Seq::empty(), admin: false, wait: false }
}

/// The command that stops the host: a forceful kill of every process whose
/// image name begins with the host's, elevated where `admin` is set, and
/// waited for.
pub fn kill_ptr(admin: bool) -> (c: HostCommand)
    ensures
        c@ == kill_command(admin),
{
    HostCommand {
        program: "taskkill.exe".to_owned(),
        args: "/F /FI \"IMAGENAME eq PowerToys*\"".to_owned(),
        admin,
        wait: true,
    }
}

/// The command that starts the host: its executable, without arguments, not
/// elevated and not waited for.
pub fn start_ptr(powertoys_path: &str) -> (c: HostCommand)
    ensures
        c@ == start_command(powertoys_path@),
{
    HostCommand { program: powertoys_path.to_owned(), args: String::new(), admin: false, wait: false }
}

/// The error for a host that could not be stopped.
pub fn kill_failure(detail: &str) -> (e: Error)
    ensures
        e@ == ErrorView::ProcessError("Failed to kill PowerToys: "@ + detail@),
{
    Error::ProcessError(concat2("Failed to kill PowerToys: ", detail))
}

/// The error for a host that could not be started.
pub fn start_failure(detail: &str) -> (e: Error)
    ensures
        e@ == ErrorView::ProcessError("Failed to start PowerToys: "@ + detail@),
{
    Error::ProcessError(concat2("Failed to start PowerToys: ", detail))
}

/// The host's executable below an installation directory.
pub open spec fn executable_below(base: Seq<char>) -> Seq<char> {
    if base.len() == 0 {
        "PowerToys\\PowerToys.exe"@
    } else if base.last() == '\\' || base.last() == '/' {
        base + "PowerToys\\PowerToys.exe"@
    } else {
        base + "\\"@ + "PowerToys\\PowerToys.exe"@
    }
}

/// The places where the host's executable is looked for, in this order:
/// below the machine-wide program directory, then below the user's local
/// application data.
pub fn powertoys_candidates(program_files: &str, local_app_data: &str) -> (r: Vec<String>)
    ensures
        views(r@) == seq![executable_below(program_files@), executable_below(local_app_data@)],
{
    let mut r: Vec<String> = Vec::new();
    r.push(below(program_files));
    r.push(below(local_app_data));
    assert(views(r@) =~= seq![
        executable_below(program_files@),
        executable_below(local_app_data@),
    ]);
    r
}

fn below(base: &str) -> (r: String)
    ensures
        r@ == executable_below(base@),
{
    let n: usize = base.unicode_len();
    if n == 0 {
        "PowerToys\\PowerToys.exe".to_owned()
    } else {
        let last = base.get_char(n - 1);
        if last == '\\' || last == '/' {
            concat2(base, "PowerToys\\PowerToys.exe")
        } else {
            crate::text::concat3(base, "\\", "PowerToys\\PowerToys.exe")
        }
    }
}

/// `at` is the first candidate that exists.
pub open spec fn first_existing(count: int, exists: Seq<bool>, at: int) -> bool {
    &&& 0 <= at < exists.len()
    &&& at < count
    &&& exists[at]
    &&& forall|j: int| 0 <= j < at ==> !exists[j]
}

/// The host's executable: the first candidate that was found to exist, where
/// `exists[i]` says so of `candidates[i]`; `None` where none exists, and the
/// user has to be asked. A candidate without an entry in `exists` counts as
/// missing.
pub fn get_powertoys_path(candidates: &Vec<String>, exists: &Vec<bool>) -> (r: Option<String>)
    ensures
        match r {
            Some(path) => exists|at: int|
                first_existing(candidates@.len() as int, exists@, at) && path@ == (
                #[trigger] candidates@[at])@,
            None => forall|j: int| 0 <= j < exists.len() && j < candidates.len() ==> !exists@[j],
        },
{
    let mut i: usize = 0;
    while i < exists.len() && i < candidates.len()
        invariant
            i <= exists.len(),
            i <= candidates.len(),
            forall|j: int| 0 <= j < i ==> !exists@[j],
        decreases exists.len() - i,
    {
        if exists[i] {
            assert(first_existing(candidates@.len() as int, exists@, i as int));
            return Some(candidates[i].clone());
        }
        i = i + 1;
    }
    None
}

} // verus!
