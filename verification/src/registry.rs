//! The plugin registry: which plugins are installed, from where, and in
//! which version.

use vstd::prelude::*;

use crate::order::{
    ascending, comes_before, lemma_precedes_total, lemma_precedes_transitive, precedes,
};
use crate::text::{clone_opt, opt_view, same, views};

verus! {

/// What is recorded of one installed plugin.
#[derive(Debug, PartialEq, Eq)]
pub struct Plugin {
    /// The repository it comes from, as `owner/name`.
    pub repo: String,
    /// The tag of the release that is installed.
    pub version: String,
    /// The pattern that picks its asset, where the architecture does not.
    pub pattern: Option<String>,
}

/// The mathematical value of a [`Plugin`].
pub struct PluginView {
    pub repo: Seq<char>,
    pub version: Seq<char>,
    pub pattern: Option<Seq<char>>,
}

impl View for Plugin {
    type V = PluginView;

    open spec fn view(&self) -> PluginView {
        PluginView { repo: self.repo@, version: self.version@, pattern: opt_view(self.pattern) }
    }
}

impl Clone for Plugin {
    fn clone(&self) -> (r: Plugin)
        ensures
            r@ == self@,
    {
        Plugin {
            repo: self.repo.clone(),
            version: self.version.clone(),
            pattern: clone_opt(&self.pattern),
        }
    }
}

/// A plugin under its name.
#[derive(Clone, Debug, PartialEq, Eq)]
pub struct Record {
    pub name: String,
    pub plugin: Plugin,
}

/// The names of a sequence of records.
pub open spec fn names_of(records: Seq<Record>) -> Seq<Seq<char>> {
    records.map_values(|r: Record| r.name@)
}

/// The records as a map from name to plugin, where each name stands once.
pub open spec fn map_of(records: Seq<Record>) -> Map<Seq<char>, PluginView> {
    Map::new(
        |k: Seq<char>| names_of(records).contains(k),
        |k: Seq<char>| records[names_of(records).index_of(k)].plugin@,
    )
}

/// In records with distinct names, each record is what the map holds under
/// its name.
pub proof fn lemma_map_of(records: Seq<Record>, i: int)
    requires
        names_of(records).no_duplicates(),
        0 <= i < records.len(),
    ensures
        map_of(records).dom().contains(records[i].name@),
        map_of(records)[records[i].name@] == records[i].plugin@,
{
    let names = names_of(records);
    assert(names[i] == records[i].name@);
    let j = names.index_of(records[i].name@);
    assert(0 <= j < names.len() && names[j] == names[i]);
}

/// The map that a list of records comes to when they are recorded one
/// after the other, a later record replacing an earlier one of its name.
pub open spec fn collected(records: Seq<Record>) -> Map<Seq<char>, PluginView>
    decreases records.len(),
{
    if records.len() == 0 {
        Map::empty()
    } else {
        collected(records.drop_last()).insert(records.last().name@, records.last().plugin@)
    }
}

/// Records with distinct names come to the map that holds each plugin
/// under its name.
pub proof fn lemma_collected(records: Seq<Record>)
    requires
        names_of(records).no_duplicates(),
    ensures
        collected(records) == map_of(records),
    decreases records.len(),
{
    if records.len() == 0 {
        assert(collected(records) =~= map_of(records));
    } else {
        let front = records.drop_last();
        let last = records.last();
        assert(names_of(front) =~= names_of(records).drop_last());
        lemma_collected(front);
        assert forall|k: Seq<char>|
            names_of(records).contains(k) <==> names_of(front).contains(k) || k == last.name@ by {
            if names_of(front).contains(k) {
                let j = names_of(front).index_of(k);
                assert(names_of(records)[j] == k);
            }
            if k == last.name@ {
                assert(names_of(records)[records.len() - 1] == k);
            }
            if names_of(records).contains(k) && k != last.name@ {
                let j = names_of(records).index_of(k);
                assert(names_of(front)[j] == k);
            }
        }
        assert forall|k: Seq<char>| #[trigger]
            map_of(records).dom().contains(k) implies map_of(records)[k] == map_of(front).insert(
            last.name@,
            last.plugin@,
        )[k] by {
            if k == last.name@ {
                lemma_map_of(records, records.len() - 1);
            } else {
                let j = names_of(front).index_of(k);
                lemma_map_of(front, j);
                lemma_map_of(records, j);
            }
        }
        assert(map_of(records) =~= map_of(front).insert(last.name@, last.plugin@));
    }
}

/// Read in whatever order, records with distinct names come to the same
/// registry.
pub proof fn lemma_collected_in_any_order(a: Seq<Record>, b: Seq<Record>)
    requires
        names_of(a).no_duplicates(),
        names_of(b).no_duplicates(),
        forall|i: int|
            0 <= i < a.len() ==> exists|j: int|
                0 <= j < b.len() && b[j].name@ == (#[trigger] a[i]).name@ && b[j].plugin@
                    == a[i].plugin@,
        forall|j: int|
            0 <= j < b.len() ==> exists|i: int|
                0 <= i < a.len() && a[i].name@ == (#[trigger] b[j]).name@ && a[i].plugin@
                    == b[j].plugin@,
    ensures
        collected(a) == collected(b),
{
    lemma_collected(a);
    lemma_collected(b);
    assert forall|k: Seq<char>| map_of(a).dom().contains(k) implies #[trigger] map_of(
        b,
    ).dom().contains(k) && map_of(a)[k] == map_of(b)[k] by {
        let i = names_of(a).index_of(k);
        lemma_map_of(a, i);
        let j = choose|j: int|
            0 <= j < b.len() && b[j].name@ == a[i].name@ && b[j].plugin@ == a[i].plugin@;
        lemma_map_of(b, j);
    }
    assert forall|k: Seq<char>| map_of(b).dom().contains(k) implies #[trigger] map_of(
        a,
    ).dom().contains(k) by {
        let j = names_of(b).index_of(k);
        lemma_map_of(b, j);
        let i = choose|i: int|
            0 <= i < a.len() && a[i].name@ == b[j].name@ && a[i].plugin@ == b[j].plugin@;
        lemma_map_of(a, i);
    }
    assert(map_of(a) =~= map_of(b));
}

/// The plugins that are installed, each under its name.
#[derive(Debug)]
pub struct Registry {
    records: Vec<Record>,
}

impl Registry {
    /// The names ascend, so that none stands twice. This holds of every
    /// registry.
    #[verifier::type_invariant]
    pub closed spec fn wf(self) -> bool {
        &&& ascending(names_of(self.records@))
        &&& names_of(self.records@).no_duplicates()
    }

    /// The registry as a map from name to plugin.
    pub closed spec fn view(&self) -> Map<Seq<char>, PluginView> {
        map_of(self.records@)
    }

    /// The names in the order in which the registry is walked and written.
    pub closed spec fn order(&self) -> Seq<Seq<char>> {
        names_of(self.records@)
    }

    /// The order holds the names of the registry, ascending, and no other
    /// name.
    pub proof fn lemma_order(&self)
        requires
            self.wf(),
        ensures
            ascending(self.order()),
            self.order().no_duplicates(),
            forall|k: Seq<char>| self.order().contains(k) <==> self@.dom().contains(k),
    {
    }

    /// What is written of a registry, read back, is the registry: records
    /// that hold its plugins under its names, in its order, come to it.
    pub proof fn lemma_round_trip(&self, written: Seq<Record>)
        requires
            self.wf(),
            names_of(written) == self.order(),
            forall|i: int|
                0 <= i < written.len() ==> self@[(#[trigger] written[i]).name@]
                    == written[i].plugin@,
        ensures
            collected(written) == self@,
    {
        lemma_collected(written);
        assert forall|k: Seq<char>| #[trigger] self@.dom().contains(k) implies map_of(written)[k]
            == self@[k] by {
            let j = names_of(written).index_of(k);
            lemma_map_of(written, j);
            assert(written[j].name@ == names_of(written)[j]);
        }
        assert(map_of(written) =~= self@);
    }

    /// Registries of the same plugins are walked and written in the same
    /// order, however they came about.
    pub proof fn lemma_same_order(&self, other: &Registry)
        requires
            self.wf(),
            other.wf(),
            self@.dom() == other@.dom(),
        ensures
            self.order() == other.order(),
    {
        assert forall|k: Seq<char>| self.order().contains(k) <==> other.order().contains(k) by {
            assert(self.order().contains(k) <==> self@.dom().contains(k));
            assert(other.order().contains(k) <==> other@.dom().contains(k));
        }
        crate::order::lemma_ascending_unique(self.order(), other.order());
    }

    /// A registry without plugins.
    pub fn new() -> (r: Registry)
        ensures
            r.wf(),
            r@ == Map::<Seq<char>, PluginView>::empty(),
            r.order() == Seq::<Seq<char>>::empty(),
    {
        let r = Registry { records: Vec::new() };
        assert(r@ =~= Map::<Seq<char>, PluginView>::empty());
        assert(r.order() =~= Seq::<Seq<char>>::empty());
        r
    }

    /// The registry that holds the records, recorded one after the other.
    pub fn collect(records: &Vec<Record>) -> (r: Registry)
        ensures
            r.wf(),
            r@ == collected(records@),
    {
        let mut r = Registry::new();
        let mut i: usize = 0;
        while i < records.len()
            invariant
                i <= records.len(),
                r.wf(),
                r@ == collected(records@.take(i as int)),
            decreases records.len() - i,
        {
            proof {
                assert(records@.take(i + 1).drop_last() == records@.take(i as int));
                assert(records@.take(i + 1).last() == records@[i as int]);
            }
            r.insert(records[i].name.clone(), records[i].plugin.clone());
            i = i + 1;
        }
        assert(records@.take(i as int) == records@);
        r
    }

    /// The records, in the registry's order.
    pub fn records(&self) -> (r: Vec<Record>)
        ensures
            self.wf(),
            names_of(r@) == self.order(),
            forall|i: int|
                0 <= i < r.len() ==> self@.dom().contains(#[trigger] r@[i].name@) && self@[r@[i].name@]
                    == r@[i].plugin@,
    {
        proof {
            use_type_invariant(self);
        }
        let mut r: Vec<Record> = Vec::new();
        let mut i: usize = 0;
        while i < self.records.len()
            invariant
                self.wf(),
                i <= self.records.len(),
                r.len() == i,
                forall|j: int| 0 <= j < i ==> r@[j].name@ == self.records@[j].name@,
                forall|j: int|
                    0 <= j < i ==> self@.dom().contains(#[trigger] r@[j].name@) && self@[r@[j].name@]
                        == r@[j].plugin@,
            decreases self.records.len() - i,
        {
            proof {
                lemma_map_of(self.records@, i as int);
            }
            r.push(
                Record { name: self.records[i].name.clone(), plugin: self.records[i].plugin.clone() },
            );
            i = i + 1;
        }
        assert(names_of(r@) =~= self.order());
        r
    }

    /// The number of plugins.
    pub fn len(&self) -> (n: usize)
        ensures
            n == self.order().len(),
    {
        self.records.len()
    }

    /// Where a name stands among the records.
    fn position(&self, name: &str) -> (r: Option<usize>)
        ensures
            match r {
                Some(i) => i < self.records.len() && self.records@[i as int].name@ == name@,
                None => !names_of(self.records@).contains(name@),
            },
    {
        let mut i: usize = 0;
        while i < self.records.len()
            invariant
                i <= self.records.len(),
                forall|j: int| 0 <= j < i ==> self.records@[j].name@ != name@,
            decreases self.records.len() - i,
        {
            if same(self.records[i].name.as_str(), name) {
                return Some(i);
            }
            i = i + 1;
        }
        assert forall|j: int| 0 <= j < names_of(self.records@).len() implies names_of(
            self.records@,
        )[j] != name@ by {
            assert(names_of(self.records@)[j] == self.records@[j].name@);
        }
        None
    }

    /// Whether a plugin of this name is installed.
    pub fn contains(&self, name: &str) -> (r: bool)
        ensures
            r == self@.dom().contains(name@),
    {
        let at = self.position(name);
        proof {
            if at is Some {
                assert(names_of(self.records@)[at->Some_0 as int] == name@);
            }
        }
        at.is_some()
    }

    /// The plugin of this name.
    pub fn get(&self, name: &str) -> (r: Option<&Plugin>)
        ensures
            self.wf(),
            match r {
                Some(p) => self@.dom().contains(name@) && p@ == self@[name@],
                None => !self@.dom().contains(name@),
            },
    {
        proof {
            use_type_invariant(self);
        }
        match self.position(name) {
            Some(i) => {
                proof {
                    lemma_map_of(self.records@, i as int);
                }
                Some(&self.records[i].plugin)
            },
            None => None,
        }
    }

    /// Where a new name is put so that the names still ascend.
    fn slot(&self, name: &str) -> (at: usize)
        requires
            !names_of(self.records@).contains(name@),
        ensures
            at <= self.records.len(),
            forall|j: int| 0 <= j < at ==> precedes(names_of(self.records@)[j], name@),
            forall|j: int|
                at <= j < self.records.len() ==> precedes(name@, names_of(self.records@)[j]),
    {
        proof {
            use_type_invariant(self);
        }
        let ghost names = names_of(self.records@);
        let mut at: usize = 0;
        while at < self.records.len()
            invariant
                at <= self.records.len(),
                names == names_of(self.records@),
                ascending(names),
                !names.contains(name@),
                forall|j: int| 0 <= j < at ==> precedes(names[j], name@),
            decreases self.records.len() - at,
        {
            assert(names[at as int] == self.records@[at as int].name@);
            if !comes_before(self.records[at].name.as_str(), name) {
                proof {
                    assert(names.contains(names[at as int]));
                    lemma_precedes_total(names[at as int], name@);
                    assert forall|j: int| at <= j < self.records.len() implies precedes(
                        name@,
                        names[j],
                    ) by {
                        if j > at {
                            assert(precedes(names[at as int], names[j]));
                            lemma_precedes_transitive(name@, names[at as int], names[j]);
                        }
                    }
                }
                return at;
            }
            at = at + 1;
        }
        at
    }

    /// Records a plugin under a name, in place of the one recorded under it
    /// before, if any.
    pub fn insert(&mut self, name: String, plugin: Plugin)
        ensures
            old(self).wf(),
            final(self).wf(),
            final(self)@ == old(self)@.insert(name@, plugin@),
            old(self)@.dom().contains(name@) ==> final(self).order() == old(self).order(),
    {
        proof {
            use_type_invariant(&*self);
        }
        let ghost before = self.records@;
        let ghost key = name@;
        let ghost value = plugin@;
        let found = self.position(name.as_str());
        let at = match found {
            Some(i) => i,
            None => self.slot(name.as_str()),
        };
        let mut records: Vec<Record> = Vec::new();
        assert(names_of(records@) =~= Seq::<Seq<char>>::empty());
        core::mem::swap(&mut self.records, &mut records);
        match found {
            Some(i) => {
                records.set(i, Record { name, plugin });
                proof {
                    let after = records@;
                    assert(names_of(before)[i as int] == key);
                    assert(names_of(after) =~= names_of(before));
                    assert forall|k: Seq<char>| #[trigger]
                        map_of(before).insert(key, value).dom().contains(k) implies map_of(
                        after,
                    )[k] == map_of(before).insert(key, value)[k] by {
                        let j = names_of(before).index_of(k);
                        lemma_map_of(after, j);
                        lemma_map_of(before, j);
                        lemma_map_of(after, i as int);
                    }
                    assert(map_of(after) =~= map_of(before).insert(key, value));
                }
            },
            None => {
                records.insert(at, Record { name, plugin });
                proof {
                    let after = records@;
                    assert(!map_of(before).dom().contains(key));
                    assert(names_of(after) =~= names_of(before).insert(at as int, key));
                    assert forall|k: Seq<char>|
                        names_of(after).contains(k) <==> names_of(before).contains(k) || k
                            == key by {
                        if names_of(before).contains(k) {
                            let j = names_of(before).index_of(k);
                            if j < at {
                                assert(names_of(after)[j] == k);
                            } else {
                                assert(names_of(after)[j + 1] == k);
                            }
                        }
                        if k == key {
                            assert(names_of(after)[at as int] == k);
                        }
                        if names_of(after).contains(k) && k != key {
                            let j = names_of(after).index_of(k);
                            if j < at {
                                assert(names_of(before)[j] == k);
                            } else {
                                assert(names_of(before)[j - 1] == k);
                            }
                        }
                    }
                    assert forall|i: int, j: int| 0 <= i < j < names_of(after).len() implies precedes(
                        names_of(after)[i],
                        names_of(after)[j],
                    ) by {
                        let a = names_of(before);
                        if j < at {
                            assert(precedes(a[i], a[j]));
                        } else if j == at {
                            assert(precedes(a[i], key));
                        } else if i < at {
                            assert(precedes(a[i], a[j - 1]));
                        } else if i == at {
                            assert(precedes(key, a[j - 1]));
                        } else {
                            assert(precedes(a[i - 1], a[j - 1]));
                        }
                    }
                    crate::order::lemma_ascending_distinct(names_of(after));
                    assert forall|k: Seq<char>| #[trigger]
                        map_of(before).insert(key, value).dom().contains(k) implies map_of(
                        after,
                    )[k] == map_of(before).insert(key, value)[k] by {
                        if k == key {
                            lemma_map_of(after, at as int);
                        } else {
                            let j = names_of(before).index_of(k);
                            lemma_map_of(before, j);
                            if j < at {
                                lemma_map_of(after, j);
                            } else {
                                lemma_map_of(after, j + 1);
                            }
                        }
                    }
                    assert(map_of(after) =~= map_of(before).insert(key, value));
                }
            },
        }
        self.records = records;
    }

    /// Takes the plugin of this name out of the registry, if there is one.
    /// The order of the others stays.
    pub fn remove(&mut self, name: &str)
        ensures
            old(self).wf(),
            final(self).wf(),
            final(self)@ == old(self)@.remove(name@),
            final(self).order() == (if old(self)@.dom().contains(name@) {
                old(self).order().remove(old(self).order().index_of(name@))
            } else {
                old(self).order()
            }),
    {
        proof {
            use_type_invariant(&*self);
        }
        let ghost before = self.records@;
        let ghost key = name@;
        match self.position(name) {
            Some(i) => {
                let mut records: Vec<Record> = Vec::new();
                assert(names_of(records@) =~= Seq::<Seq<char>>::empty());
                core::mem::swap(&mut self.records, &mut records);
                records.remove(i);
                proof {
                    let after = records@;
                    assert(names_of(before)[i as int] == key);
                    assert(names_of(before).index_of(key) == i);
                    assert(names_of(after) =~= names_of(before).remove(i as int));
                    assert forall|x: int, y: int| 0 <= x < y < names_of(after).len() implies precedes(
                        names_of(after)[x],
                        names_of(after)[y],
                    ) by {
                        let a = names_of(before);
                        if y < i {
                            assert(precedes(a[x], a[y]));
                        } else if x < i {
                            assert(precedes(a[x], a[y + 1]));
                        } else {
                            assert(precedes(a[x + 1], a[y + 1]));
                        }
                    }
                    assert forall|k: Seq<char>|
                        names_of(after).contains(k) <==> names_of(before).contains(k) && k
                            != key by {
                        if names_of(after).contains(k) {
                            let j = names_of(after).index_of(k);
                            if j < i {
                                assert(names_of(before)[j] == k);
                            } else {
                                assert(names_of(before)[j + 1] == k);
                            }
                        }
                        if names_of(before).contains(k) && k != key {
                            let j = names_of(before).index_of(k);
                            if j < i {
                                assert(names_of(after)[j] == k);
                            } else {
                                assert(names_of(after)[j - 1] == k);
                            }
                        }
                    }
                    assert forall|k: Seq<char>| #[trigger]
                        map_of(before).remove(key).dom().contains(k) implies map_of(after)[k]
                        == map_of(before).remove(key)[k] by {
                        let j = names_of(before).index_of(k);
                        lemma_map_of(before, j);
                        if j < i {
                            lemma_map_of(after, j);
                        } else {
                            lemma_map_of(after, j - 1);
                        }
                    }
                    assert(map_of(after) =~= map_of(before).remove(key));
                }
                self.records = records;
            },
            None => {
                proof {
                    assert(map_of(before) =~= map_of(before).remove(key));
                }
            },
        }
    }

    /// Records a new version for the plugin of this name, if there is one.
    pub fn set_version(&mut self, name: &str, version: String)
        ensures
            old(self).wf(),
            final(self).wf(),
            final(self).order() == old(self).order(),
            final(self)@ == (if old(self)@.dom().contains(name@) {
                old(self)@.insert(
                    name@,
                    PluginView { version: version@, ..old(self)@[name@] },
                )
            } else {
                old(self)@
            }),
    {
        let changed = match self.get(name) {
            Some(p) => Plugin {
                repo: p.repo.clone(),
                version,
                pattern: clone_opt(&p.pattern),
            },
            None => {
                return ;
            },
        };
        let ghost order = self.order();
        self.insert(name.to_owned(), changed);
        assert(self.order() == order);
    }

    /// The names, in the registry's order.
    pub fn names(&self) -> (r: Vec<String>)
        ensures
            views(r@) == self.order(),
    {
        let mut r: Vec<String> = Vec::new();
        let mut i: usize = 0;
        while i < self.records.len()
            invariant
                i <= self.records.len(),
                r.len() == i,
                forall|j: int| 0 <= j < i ==> r@[j]@ == self.records@[j].name@,
            decreases self.records.len() - i,
        {
            r.push(self.records[i].name.clone());
            i = i + 1;
        }
        assert(views(r@) =~= self.order());
        r
    }
}

} // verus!
