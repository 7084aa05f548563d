//! The set of pinned plugin names: plugins that a general update leaves
//! alone.

use vstd::prelude::*;

use crate::text::{same, views};

verus! {

/// The pinned names, or nothing where no pin was ever set.
#[derive(Debug)]
pub struct Pin(Option<Vec<String>>);

/// The names of a list, as a set.
pub open spec fn name_set(names: Seq<String>) -> Set<Seq<char>> {
    views(names).to_set()
}

/// Appending an item to a sequence adds it to the sequence's set.
proof fn lemma_push_set(a: Seq<Seq<char>>, x: Seq<char>)
    ensures
        a.push(x).to_set() == a.to_set().insert(x),
{
    let b = a.push(x);
    assert forall|s: Seq<char>| b.contains(s) <==> a.contains(s) || s == x by {
        if a.contains(s) {
            let k = choose|k: int| 0 <= k < a.len() && a[k] == s;
            assert(b[k] == s);
        }
        if s == x {
            assert(b[a.len() as int] == s);
        }
    }
    assert(b.to_set() =~= a.to_set().insert(x));
}

/// Taking an item out of a sequence without duplicates takes it out of the
/// sequence's set, and leaves a sequence without duplicates.
proof fn lemma_remove_set(a: Seq<Seq<char>>, i: int)
    requires
        a.no_duplicates(),
        0 <= i < a.len(),
    ensures
        a.remove(i).no_duplicates(),
        a.remove(i).to_set() == a.to_set().remove(a[i]),
{
    let b = a.remove(i);
    assert forall|s: Seq<char>| b.contains(s) <==> a.contains(s) && s != a[i] by {
        if b.contains(s) {
            let k = choose|k: int| 0 <= k < b.len() && b[k] == s;
            if k < i {
                assert(a[k] == s);
            } else {
                assert(a[k + 1] == s);
            }
        }
        if a.contains(s) && s != a[i] {
            let k = choose|k: int| 0 <= k < a.len() && a[k] == s;
            if k < i {
                assert(b[k] == s);
            } else {
                assert(b[k - 1] == s);
            }
        }
    }
    assert(b.to_set() =~= a.to_set().remove(a[i]));
}

/// Whether a name stands in a list.
fn holds(names: &Vec<String>, value: &str) -> (r: bool)
    ensures
        r == name_set(names@).contains(value@),
{
    let mut i: usize = 0;
    while i < names.len()
        invariant
            i <= names.len(),
            forall|j: int| 0 <= j < i ==> names@[j]@ != value@,
        decreases names.len() - i,
    {
        if same(names[i].as_str(), value) {
            assert(views(names@)[i as int] == value@);
            return true;
        }
        i = i + 1;
    }
    assert forall|j: int| 0 <= j < views(names@).len() implies views(names@)[j] != value@ by {
        assert(views(names@)[j] == names@[j]@);
    }
    false
}

/// Adds the names that a list does not hold yet.
fn insert_all(pins: &mut Vec<String>, names: Vec<String>)
    requires
        views(old(pins)@).no_duplicates(),
    ensures
        views(final(pins)@).no_duplicates(),
        name_set(final(pins)@) == name_set(old(pins)@).union(name_set(names@)),
{
    let mut i: usize = 0;
    while i < names.len()
        invariant
            i <= names.len(),
            views(pins@).no_duplicates(),
            name_set(pins@) == name_set(old(pins)@).union(name_set(names@.take(i as int))),
        decreases names.len() - i,
    {
        let ghost before = pins@;
        if !holds(pins, names[i].as_str()) {
            pins.push(names[i].clone());
            assert(views(pins@) =~= views(before).push(names@[i as int]@));
        }
        proof {
            assert(views(names@.take(i + 1)) =~= views(names@.take(i as int)).push(
                names@[i as int]@,
            ));
            lemma_push_set(views(names@.take(i as int)), names@[i as int]@);
            lemma_push_set(views(before), names@[i as int]@);
            assert(name_set(pins@) =~= name_set(old(pins)@).union(
                name_set(names@.take(i + 1)),
            ));
        }
        i = i + 1;
    }
    assert(names@.take(names.len() as int) == names@);
}

/// Takes one name out of a list.
fn take_out(pins: &mut Vec<String>, value: &str)
    requires
        views(old(pins)@).no_duplicates(),
    ensures
        views(final(pins)@).no_duplicates(),
        name_set(final(pins)@) == name_set(old(pins)@).remove(value@),
{
    let mut i: usize = 0;
    while i < pins.len()
        invariant
            i <= pins.len(),
            pins@ == old(pins)@,
            views(pins@).no_duplicates(),
            forall|j: int| 0 <= j < i ==> pins@[j]@ != value@,
        decreases pins.len() - i,
    {
        if same(pins[i].as_str(), value) {
            let ghost was = views(pins@);
            pins.remove(i);
            proof {
                assert(views(pins@) =~= was.remove(i as int));
                assert(was[i as int] == value@);
                lemma_remove_set(was, i as int);
            }
            return ;
        }
        i = i + 1;
    }
    proof {
        assert forall|j: int| 0 <= j < views(pins@).len() implies views(pins@)[j] != value@ by {
            assert(views(pins@)[j] == pins@[j]@);
        }
        assert(name_set(pins@) =~= name_set(old(pins)@).remove(value@));
    }
}

impl Pin {
    #[verifier::type_invariant]
    spec fn distinct(self) -> bool {
        match self.0 {
            Some(names) => views(names@).no_duplicates(),
            None => true,
        }
    }

    /// The pinned names as a set; `None` where no pin was ever set, or after
    /// a reset.
    pub closed spec fn view(&self) -> Option<Set<Seq<char>>> {
        match self.0 {
            Some(names) => Some(name_set(names@)),
            None => None,
        }
    }

    /// The pins of a plugin manager that never pinned anything.
    pub fn new() -> (r: Pin)
        ensures
            r@ is None,
    {
        Pin(None)
    }

    /// Pins `names`, in addition to those pinned before.
    pub fn add(&mut self, names: Vec<String>)
        ensures
            final(self)@ == Some(
                (match old(self)@ {
                    Some(pins) => pins,
                    None => Set::empty(),
                }).union(name_set(names@)),
            ),
    {
        proof {
            use_type_invariant(&*self);
        }
        let mut held: Option<Vec<String>> = None;
        core::mem::swap(&mut self.0, &mut held);
        let mut pins: Vec<String> = match held {
            Some(pins) => pins,
            None => Vec::new(),
        };
        assert(old(self)@ is None ==> name_set(pins@) =~= Set::empty());
        insert_all(&mut pins, names);
        self.0 = Some(pins);
    }

    /// Unpins `names`. Where no pin was ever set, the names are pinned
    /// instead.
    pub fn remove(&mut self, names: Vec<String>)
        ensures
            final(self)@ == Some(
                match old(self)@ {
                    Some(pins) => pins.difference(name_set(names@)),
                    None => name_set(names@),
                },
            ),
    {
        proof {
            use_type_invariant(&*self);
        }
        let mut held: Option<Vec<String>> = None;
        core::mem::swap(&mut self.0, &mut held);
        match held {
            Some(mut pins) => {
                let ghost start = name_set(pins@);
                let mut i: usize = 0;
                while i < names.len()
                    invariant
                        i <= names.len(),
                        views(pins@).no_duplicates(),
                        name_set(pins@) == start.difference(name_set(names@.take(i as int))),
                    decreases names.len() - i,
                {
                    take_out(&mut pins, names[i].as_str());
                    proof {
                        assert(views(names@.take(i + 1)) =~= views(
                            names@.take(i as int),
                        ).push(names@[i as int]@));
                        lemma_push_set(views(names@.take(i as int)), names@[i as int]@);
                        assert(name_set(pins@) =~= start.difference(
                            name_set(names@.take(i + 1)),
                        ));
                    }
                    i = i + 1;
                }
                assert(names@.take(names.len() as int) == names@);
                self.0 = Some(pins);
            },
            None => {
                let mut pins: Vec<String> = Vec::new();
                assert(name_set(pins@) =~= Set::empty());
                insert_all(&mut pins, names);
                assert(name_set(pins@) =~= name_set(names@));
                self.0 = Some(pins);
            },
        }
    }

    /// Forgets every pin.
    pub fn reset(&mut self)
        ensures
            final(self)@ is None,
    {
        self.0 = None;
    }

    /// Whether `value` is pinned.
    pub fn contains(&self, value: &str) -> (r: bool)
        ensures
            r == (self@ is Some && self@->Some_0.contains(value@)),
    {
        match &self.0 {
            Some(pins) => holds(pins, value),
            None => false,
        }
    }

    /// Whether a pin was ever set, and not reset since.
    pub fn is_set(&self) -> (r: bool)
        ensures
            r == (self@ is Some),
    {
        self.0.is_some()
    }

    /// The pinned names, each once; empty where no pin is set.
    pub fn list(&self) -> (r: Vec<String>)
        ensures
            views(r@).no_duplicates(),
            name_set(r@) == (match self@ {
                Some(pins) => pins,
                None => Set::empty(),
            }),
    {
        proof {
            use_type_invariant(self);
        }
        match &self.0 {
            Some(pins) => crate::text::clone_all(pins),
            None => {
                let r: Vec<String> = Vec::new();
                assert(name_set(r@) =~= Set::empty());
                r
            },
        }
    }
}

impl Default for Pin {
    fn default() -> (r: Pin)
        ensures
            r@ is None,
    {
        Pin::new()
    }
}

} // verus!
