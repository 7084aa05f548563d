//! The manager's configuration: the machine's settings, the pins, and the
//! registry of installed plugins.

use vstd::prelude::*;
use vstd::string::*;

use crate::arch::Arch;
use crate::host::{kill_command, kill_ptr, start_command, start_ptr, HostCommand};
use crate::pin::{name_set, Pin};
use crate::registry::{collected, names_of, Plugin, PluginView, Record, Registry};
use crate::text::{opt_view, starts, strip_prefix, views};

verus! {

/// What a plugin says of itself in its `plugin.json`.
#[derive(Clone, Debug, PartialEq, Eq)]
pub struct PluginMetadata {
    pub version: String,
    pub website: String,
}

/// A plugin directory found on disk, with the metadata read from it.
#[derive(Clone, Debug, PartialEq, Eq)]
pub struct Found {
    pub dir_name: String,
    pub metadata: PluginMetadata,
}

/// The part of a manifest that names the plugins.
#[derive(Clone, Debug, PartialEq, Eq)]
pub struct ImportConfig {
    pub plugins: Vec<Record>,
}

/// The configuration of the plugin manager.
#[derive(Debug)]
pub struct Config {
    arch: Arch,
    pt_path: String,
    /// Stop and start the host with elevated privileges.
    admin: bool,
    /// Do not start the host again after plugins were changed.
    no_restart: bool,
    /// The token sent to the release API.
    token: Option<String>,
    pin: Pin,
    plugins: Registry,
}

/// The mathematical value of a [`Config`].
pub struct ConfigView {
    pub arch: Arch,
    pub pt_path: Seq<char>,
    pub admin: bool,
    pub no_restart: bool,
    pub token: Option<Seq<char>>,
    pub pin: Option<Set<Seq<char>>>,
    pub plugins: Map<Seq<char>, PluginView>,
}

/// The address that repositories are given below.
pub open spec fn site() -> Seq<char> {
    "https://github.com/"@
}

/// The repository that an address names: what stands behind the site's
/// address.
pub open spec fn repo_of(address: Seq<char>) -> Option<Seq<char>> {
    if starts(site(), address) {
        Some(address.skip(site().len() as int))
    } else {
        None
    }
}

/// The registry that the plugins found on disk come to: each plugin whose
/// website names a repository, under the name of its directory.
pub open spec fn found_plugins(found: Seq<Found>) -> Map<Seq<char>, PluginView>
    decreases found.len(),
{
    if found.len() == 0 {
        Map::empty()
    } else {
        let rest = found_plugins(found.drop_last());
        let last = found.last();
        match repo_of(last.metadata.website@) {
            Some(repo) => rest.insert(
                last.dir_name@,
                PluginView { repo, version: last.metadata.version@, pattern: None },
            ),
            None => rest,
        }
    }
}

/// The configuration of a manager that was never configured: elevated
/// privileges, the host started again after each change, no token, no pin.
pub open spec fn fresh(arch: Arch, pt_path: Seq<char>, plugins: Map<Seq<char>, PluginView>) -> ConfigView {
    ConfigView {
        arch,
        pt_path,
        admin: true,
        no_restart: false,
        token: None,
        pin: None,
        plugins,
    }
}

/// A repository as the user gave it, without the site's address in front.
pub fn normalize_repo(repo: String) -> (r: String)
    ensures
        r@ == (match repo_of(repo@) {
            Some(short) => short,
            None => repo@,
        }),
{
    match strip_prefix(repo.as_str(), "https://github.com/") {
        Some(short) => short,
        None => repo,
    }
}

/// A text without the byte order mark that it may begin with.
pub fn strip_bom(content: String) -> (r: String)
    ensures
        r@ == (if starts("\u{FEFF}"@, content@) {
            content@.skip("\u{FEFF}"@.len() as int)
        } else {
            content@
        }),
{
    match strip_prefix(content.as_str(), "\u{FEFF}") {
        Some(rest) => rest,
        None => content,
    }
}

impl Config {
    /// The configuration as a mathematical value.
    pub closed spec fn view(&self) -> ConfigView {
        ConfigView {
            arch: self.arch,
            pt_path: self.pt_path@,
            admin: self.admin,
            no_restart: self.no_restart,
            token: opt_view(self.token),
            pin: self.pin@,
            plugins: self.plugins@,
        }
    }

    /// The registry's names ascend, as they do in every configuration that
    /// this library made.
    pub closed spec fn wf(&self) -> bool {
        self.plugins.wf()
    }

    /// The names of the plugins, in the order in which they are walked and
    /// written.
    pub closed spec fn order(&self) -> Seq<Seq<char>> {
        self.plugins.order()
    }

    /// The order holds the plugins' names, ascending, and no other name.
    pub proof fn lemma_order(&self)
        requires
            self.wf(),
        ensures
            crate::order::ascending(self.order()),
            self.order().no_duplicates(),
            forall|k: Seq<char>| self.order().contains(k) <==> self@.plugins.dom().contains(k),
    {
        self.plugins.lemma_order();
    }

    /// The configuration of a manager without a manifest.
    pub fn new(arch: Arch, pt_path: String) -> (c: Config)
        ensures
            c.wf(),
            c@ == fresh(arch, pt_path@, Map::empty()),
    {
        Config {
            arch,
            pt_path,
            admin: true,
            no_restart: false,
            token: None,
            pin: Pin::new(),
            plugins: Registry::new(),
        }
    }

    /// The configuration that a manifest holds.
    pub fn from_parts(
        arch: Arch,
        pt_path: String,
        admin: bool,
        no_restart: bool,
        token: Option<String>,
        pin: Option<Vec<String>>,
        plugins: &Vec<Record>,
    ) -> (c: Config)
        ensures
            c.wf(),
            c@ == (ConfigView {
                arch,
                pt_path: pt_path@,
                admin,
                no_restart,
                token: opt_view(token),
                pin: match pin {
                    Some(names) => Some(name_set(names@)),
                    None => None,
                },
                plugins: collected(plugins@),
            }),
    {
        let mut pins = Pin::new();
        match pin {
            Some(names) => {
                pins.add(names);
                assert(pins@->Some_0 =~= name_set(names@));
            },
            None => {},
        }
        Config {
            arch,
            pt_path,
            admin,
            no_restart,
            token,
            pin: pins,
            plugins: Registry::collect(plugins),
        }
    }

    /// The configuration made of the plugins of a manifest alone: what else
    /// the manifest holds is left out.
    pub fn import(arch: Arch, pt_path: String, import_config: &ImportConfig) -> (c: Config)
        ensures
            c.wf(),
            c@ == fresh(arch, pt_path@, collected(import_config.plugins@)),
    {
        Config {
            arch,
            pt_path,
            admin: true,
            no_restart: false,
            token: None,
            pin: Pin::new(),
            plugins: Registry::collect(&import_config.plugins),
        }
    }

    /// The configuration made of the plugins found on disk: each plugin
    /// whose website names a repository is taken, under the name of its
    /// directory, in the version that its metadata gives.
    pub fn init(arch: Arch, pt_path: String, found: &Vec<Found>) -> (c: Config)
        ensures
            c.wf(),
            c@ == fresh(arch, pt_path@, found_plugins(found@)),
    {
        let mut plugins = Registry::new();
        let mut i: usize = 0;
        while i < found.len()
            invariant
                i <= found.len(),
                plugins.wf(),
                plugins@ == found_plugins(found@.take(i as int)),
            decreases found.len() - i,
        {
            proof {
                assert(found@.take(i + 1).drop_last() == found@.take(i as int));
                assert(found@.take(i + 1).last() == found@[i as int]);
            }
            match strip_prefix(found[i].metadata.website.as_str(), "https://github.com/") {
                Some(repo) => {
                    plugins.insert(
                        found[i].dir_name.clone(),
                        Plugin { repo, version: found[i].metadata.version.clone(), pattern: None },
                    );
                },
                None => {},
            }
            i = i + 1;
        }
        assert(found@.take(i as int) == found@);
        Config {
            arch,
            pt_path,
            admin: true,
            no_restart: false,
            token: None,
            pin: Pin::new(),
            plugins,
        }
    }

    /// The architecture that assets are picked for.
    pub fn arch(&self) -> (r: Arch)
        ensures
            r == self@.arch,
    {
        self.arch
    }

    /// The host's executable.
    pub fn pt_path(&self) -> (r: &String)
        ensures
            r@ == self@.pt_path,
    {
        &self.pt_path
    }

    /// Whether the host is stopped and started with elevated privileges.
    pub fn admin(&self) -> (r: bool)
        ensures
            r == self@.admin,
    {
        self.admin
    }

    /// Whether the host is left stopped after plugins were changed.
    pub fn no_restart(&self) -> (r: bool)
        ensures
            r == self@.no_restart,
    {
        self.no_restart
    }

    /// The token sent to the release API.
    pub fn token(&self) -> (r: &Option<String>)
        ensures
            opt_view(*r) == self@.token,
    {
        &self.token
    }

    /// The plugins, in the order in which they are walked.
    pub fn plugins(&self) -> (r: Vec<Record>)
        ensures
            self.wf(),
            names_of(r@) == self.order(),
            forall|i: int|
                0 <= i < r.len() ==> self@.plugins.dom().contains(#[trigger] r@[i].name@)
                    && self@.plugins[r@[i].name@] == r@[i].plugin@,
    {
        self.plugins.records()
    }

    /// The names of the plugins, in the order in which they are walked.
    pub fn names(&self) -> (r: Vec<String>)
        ensures
            views(r@) == self.order(),
    {
        self.plugins.names()
    }

    /// Whether a plugin of this name is installed.
    pub fn contains(&self, name: &str) -> (r: bool)
        ensures
            r == self@.plugins.dom().contains(name@),
    {
        self.plugins.contains(name)
    }

    /// The plugin of this name.
    pub fn plugin(&self, name: &str) -> (r: Option<&Plugin>)
        ensures
            self.wf(),
            match r {
                Some(p) => self@.plugins.dom().contains(name@) && p@ == self@.plugins[name@],
                None => !self@.plugins.dom().contains(name@),
            },
    {
        self.plugins.get(name)
    }

    /// Records a plugin under a name, in place of the one recorded before.
    pub(crate) fn record(&mut self, name: String, plugin: Plugin)
        ensures
            final(self).wf(),
            final(self)@ == (ConfigView {
                plugins: old(self)@.plugins.insert(name@, plugin@),
                ..old(self)@
            }),
            old(self)@.plugins.dom().contains(name@) ==> final(self).order() == old(self).order(),
    {
        self.plugins.insert(name, plugin);
    }

    /// Records a new version of the plugin of this name, if there is one.
    pub(crate) fn set_version(&mut self, name: &str, version: String)
        ensures
            final(self).wf(),
            final(self).order() == old(self).order(),
            final(self)@ == (ConfigView {
                plugins: if old(self)@.plugins.dom().contains(name@) {
                    old(self)@.plugins.insert(
                        name@,
                        PluginView { version: version@, ..old(self)@.plugins[name@] },
                    )
                } else {
                    old(self)@.plugins
                },
                ..old(self)@
            }),
    {
        self.plugins.set_version(name, version);
    }

    /// Takes the plugin of this name out of the registry.
    pub(crate) fn forget(&mut self, name: &str)
        ensures
            final(self).wf(),
            final(self)@ == (ConfigView {
                plugins: old(self)@.plugins.remove(name@),
                ..old(self)@
            }),
    {
        self.plugins.remove(name);
    }

    /// The two commands that restart the host, in the order in which they
    /// are run: the one that stops it, and the one that starts it.
    pub fn restart(&self) -> (r: (HostCommand, HostCommand))
        ensures
            r.0@ == kill_command(self@.admin),
            r.1@ == start_command(self@.pt_path),
    {
        (kill_ptr(self.admin), start_ptr(self.pt_path.as_str()))
    }

    /// Pins `names`, in addition to those pinned before.
    pub fn pin_add(&mut self, names: Vec<String>)
        ensures
            final(self).wf() == old(self).wf(),
            final(self).order() == old(self).order(),
            final(self)@ == (ConfigView {
                pin: Some(
                    (match old(self)@.pin {
                        Some(pins) => pins,
                        None => Set::empty(),
                    }).union(name_set(names@)),
                ),
                ..old(self)@
            }),
    {
        self.pin.add(names);
    }

    /// Unpins `names`. Where no pin is set nothing changes, and nothing is
    /// to be saved: the result says whether the manifest is to be written.
    pub fn pin_remove(&mut self, names: Vec<String>) -> (save: bool)
        ensures
            final(self).wf() == old(self).wf(),
            final(self).order() == old(self).order(),
            save == (old(self)@.pin is Some),
            final(self)@ == (ConfigView {
                pin: match old(self)@.pin {
                    Some(pins) => Some(pins.difference(name_set(names@))),
                    None => None,
                },
                ..old(self)@
            }),
    {
        if self.pin.is_set() {
            self.pin.remove(names);
            true
        } else {
            false
        }
    }

    /// The pinned names, each once.
    pub fn pin_list(&self) -> (r: Vec<String>)
        ensures
            views(r@).no_duplicates(),
            name_set(r@) == (match self@.pin {
                Some(pins) => pins,
                None => Set::empty(),
            }),
    {
        self.pin.list()
    }

    /// Whether a pin is set at all.
    pub fn pin_is_set(&self) -> (r: bool)
        ensures
            r == (self@.pin is Some),
    {
        self.pin.is_set()
    }

    /// Whether a name is pinned.
    pub fn pinned(&self, name: &str) -> (r: bool)
        ensures
            r == (self@.pin is Some && self@.pin->Some_0.contains(name@)),
    {
        self.pin.contains(name)
    }

    /// Forgets every pin.
    pub fn pin_reset(&mut self)
        ensures
            final(self).wf() == old(self).wf(),
            final(self).order() == old(self).order(),
            final(self)@ == (ConfigView { pin: None, ..old(self)@ }),
    {
        self.pin.reset();
    }
}

} // verus!
