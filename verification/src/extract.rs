//! Archive installation: where each entry of an archive goes below the
//! plugin's directory, decided before anything is written.

use vstd::prelude::*;
use vstd::string::*;

use crate::error::{Error, ErrorView};
use crate::text::{chars_of, ends, has_suffix, same, views};

verus! {

/// One entry of an archive: its name, with `/` between directories, and
/// whether it is a directory.
#[derive(Clone, Debug, PartialEq, Eq)]
pub struct ArchiveEntry {
    pub name: String,
    pub is_dir: bool,
}

/// The mathematical value of an [`ArchiveEntry`].
pub struct EntryView {
    pub name: Seq<char>,
    pub is_dir: bool,
}

impl View for ArchiveEntry {
    type V = EntryView;

    open spec fn view(&self) -> EntryView {
        EntryView { name: self.name@, is_dir: self.is_dir }
    }
}

/// The values of a sequence of entries.
pub open spec fn entry_views(entries: Seq<ArchiveEntry>) -> Seq<EntryView> {
    entries.map_values(|e: ArchiveEntry| e@)
}

/// What is done with one entry of an archive.
#[derive(Clone, Debug, PartialEq, Eq)]
pub enum ExtractStep {
    /// The entry lies outside the logical root: it is left out, with a
    /// warning that names it.
    Skip { name: String },
    /// A directory is created, with those above it.
    MakeDir { path: String },
    /// The directory `dir` is created, with those above it, and the entry's
    /// bytes are written to `path`.
    WriteFile { dir: String, path: String },
}

/// The mathematical value of an [`ExtractStep`].
pub enum StepView {
    Skip { name: Seq<char> },
    MakeDir { path: Seq<char> },
    WriteFile { dir: Seq<char>, path: Seq<char> },
}

impl View for ExtractStep {
    type V = StepView;

    open spec fn view(&self) -> StepView {
        match self {
            ExtractStep::Skip { name } => StepView::Skip { name: name@ },
            ExtractStep::MakeDir { path } => StepView::MakeDir { path: path@ },
            ExtractStep::WriteFile { dir, path } => StepView::WriteFile { dir: dir@, path: path@ },
        }
    }
}

/// The values of a sequence of steps.
pub open spec fn step_views(steps: Seq<ExtractStep>) -> Seq<StepView> {
    steps.map_values(|s: ExtractStep| s@)
}

/// The length of the run of characters other than `/` that `s` begins with.
pub open spec fn segment_len(s: Seq<char>) -> nat
    decreases s.len(),
{
    if s.len() == 0 || s[0] == '/' {
        0
    } else {
        1 + segment_len(s.skip(1))
    }
}

/// The components of a path: its runs of characters other than `/`, the
/// empty ones left out.
pub open spec fn components(s: Seq<char>) -> Seq<Seq<char>>
    decreases s.len(),
{
    let n = segment_len(s);
    let head = if n > 0 {
        seq![s.take(n as int)]
    } else {
        Seq::empty()
    };
    if n >= s.len() {
        head
    } else {
        head + components(s.skip(n as int + 1))
    }
}

/// The path made of `parts`, with `/` between them.
pub open spec fn joined(parts: Seq<Seq<char>>) -> Seq<char>
    decreases parts.len(),
{
    if parts.len() == 0 {
        Seq::empty()
    } else if parts.len() == 1 {
        parts[0]
    } else {
        joined(parts.drop_last()) + seq!['/'] + parts.last()
    }
}

/// Whether a name is that of a library binary.
pub open spec fn is_library(name: Seq<char>) -> bool {
    ends(".dll"@, name)
}

/// `at` is the first entry that is a library binary.
pub open spec fn first_library(entries: Seq<EntryView>, at: int) -> bool {
    &&& 0 <= at < entries.len()
    &&& is_library(entries[at].name)
    &&& forall|j: int| 0 <= j < at ==> !is_library(#[trigger] entries[j].name)
}

/// The first entry that is a library binary, if any.
pub open spec fn find_library_index(entries: Seq<EntryView>) -> Option<int>
    decreases entries.len(),
{
    if entries.len() == 0 {
        None
    } else {
        match find_library_index(entries.drop_last()) {
            Some(i) => Some(i),
            None => if is_library(entries.last().name) {
                Some(entries.len() - 1)
            } else {
                None
            },
        }
    }
}

/// What `find_library_index` finds is the first library binary; it finds
/// none only where there is none.
pub proof fn lemma_find_library_index(entries: Seq<EntryView>)
    ensures
        match find_library_index(entries) {
            Some(i) => first_library(entries, i),
            None => forall|j: int| 0 <= j < entries.len() ==> !is_library(#[trigger] entries[j].name),
        },
    decreases entries.len(),
{
    if entries.len() > 0 {
        let front = entries.drop_last();
        lemma_find_library_index(front);
        match find_library_index(front) {
            Some(i) => {
                assert(front[i] == entries[i]);
                assert forall|j: int| 0 <= j < i implies !is_library(
                    #[trigger] entries[j].name,
                ) by {
                    assert(front[j] == entries[j]);
                }
            },
            None => {
                assert forall|j: int| 0 <= j < entries.len() - 1 implies !is_library(
                    #[trigger] entries[j].name,
                ) by {
                    assert(front[j] == entries[j]);
                }
            },
        }
    }
}

/// What is found among the first entries is found among all of them.
pub proof fn lemma_find_library_grows(entries: Seq<EntryView>, k: int)
    requires
        0 <= k <= entries.len(),
        find_library_index(entries.take(k)) is Some,
    ensures
        find_library_index(entries) == find_library_index(entries.take(k)),
    decreases entries.len(),
{
    if k == entries.len() {
        assert(entries.take(k) == entries);
    } else {
        assert(entries.drop_last().take(k) == entries.take(k));
        lemma_find_library_grows(entries.drop_last(), k);
    }
}

/// The directory that holds the file of this name, as components.
pub open spec fn parent_of(name: Seq<char>) -> Seq<Seq<char>> {
    let parts = components(name);
    if parts.len() == 0 {
        parts
    } else {
        parts.drop_last()
    }
}

/// Whether the path `parts` lies below the directory `root`, or is it.
pub open spec fn is_under(root: Seq<Seq<char>>, parts: Seq<Seq<char>>) -> bool {
    root.len() <= parts.len() && parts.take(root.len() as int) == root
}

/// What is done with `entry` when the archive's logical root is `root` and
/// the plugin is installed under `root_name`: an entry below the logical
/// root goes to `root_name`, followed by what its path holds behind the
/// logical root; any other entry is left out.
pub open spec fn step_of(root: Seq<Seq<char>>, root_name: Seq<char>, entry: EntryView) -> StepView {
    let parts = components(entry.name);
    if !is_under(root, parts) {
        StepView::Skip { name: entry.name }
    } else {
        let target = seq![root_name] + parts.skip(root.len() as int);
        if entry.is_dir {
            StepView::MakeDir { path: joined(target) }
        } else {
            StepView::WriteFile { dir: joined(target.drop_last()), path: joined(target) }
        }
    }
}

/// The steps for all entries of an archive, in the entries' order.
pub open spec fn planned(root: Seq<Seq<char>>, root_name: Seq<char>, entries: Seq<EntryView>) -> Seq<
    StepView,
> {
    Seq::new(entries.len(), |i: int| step_of(root, root_name, entries[i]))
}

/// The plan for an archive whose plugin is installed under `root_name`: the
/// steps for its entries, with the directory of the first library binary as
/// the logical root; `None` for an archive without a library binary.
pub open spec fn plan_of(entries: Seq<EntryView>, root_name: Seq<char>) -> Option<Seq<StepView>> {
    match find_library_index(entries) {
        Some(at) => Some(planned(parent_of(entries[at].name), root_name, entries)),
        None => None,
    }
}

/// A run that holds no `/` and ends at a `/` or at the end of the text is
/// the leading segment.
pub proof fn lemma_segment_len(s: Seq<char>, k: int)
    requires
        0 <= k <= s.len(),
        forall|j: int| 0 <= j < k ==> s[j] != '/',
        k == s.len() || s[k] == '/',
    ensures
        segment_len(s) == k,
    decreases k,
{
    if k > 0 {
        let rest = s.skip(1);
        assert forall|j: int| 0 <= j < k - 1 implies rest[j] != '/' by {
            assert(rest[j] == s[j + 1]);
        }
        if k < s.len() {
            assert(rest[k - 1] == s[k]);
        }
        lemma_segment_len(rest, k - 1);
    }
}

/// What the leading segment is: it holds no `/`, and ends at a `/` or at
/// the end of the text.
pub proof fn lemma_segment(s: Seq<char>)
    ensures
        segment_len(s) <= s.len(),
        forall|j: int| 0 <= j < segment_len(s) ==> s[j] != '/',
        segment_len(s) < s.len() ==> s[segment_len(s) as int] == '/',
    decreases s.len(),
{
    if s.len() > 0 && s[0] != '/' {
        let rest = s.skip(1);
        lemma_segment(rest);
        assert forall|j: int| 0 <= j < segment_len(s) implies s[j] != '/' by {
            if j > 0 {
                assert(rest[j - 1] == s[j]);
            }
        }
        if segment_len(s) < s.len() {
            assert(rest[segment_len(rest) as int] == s[segment_len(s) as int]);
        }
    }
}

/// A name that can stand for one directory or file: not empty, and without
/// `/`.
pub open spec fn is_segment(s: Seq<char>) -> bool {
    s.len() > 0 && forall|j: int| 0 <= j < s.len() ==> s[j] != '/'
}

/// The components of two paths with a `/` between them are those of the
/// first, followed by those of the second.
pub proof fn lemma_components_concat(s: Seq<char>, t: Seq<char>)
    ensures
        components(s + seq!['/'] + t) == components(s) + components(t),
    decreases s.len(),
{
    let whole = s + seq!['/'] + t;
    let n = segment_len(s);
    lemma_segment(s);
    assert forall|j: int| 0 <= j < n implies whole[j] != '/' by {
        assert(whole[j] == s[j]);
    }
    assert(whole[n as int] == '/') by {
        if n < s.len() {
            assert(whole[n as int] == s[n as int]);
        }
    }
    lemma_segment_len(whole, n as int);
    assert(whole.take(n as int) =~= s.take(n as int));
    if n >= s.len() {
        assert(whole.skip(n as int + 1) =~= t);
        assert(components(whole) =~= components(s) + components(t));
    } else {
        let rest = s.skip(n as int + 1);
        assert(whole.skip(n as int + 1) =~= rest + seq!['/'] + t);
        lemma_components_concat(rest, t);
        assert(components(whole) =~= components(s) + components(t));
    }
}

/// A path made of segments has these segments as its components.
pub proof fn lemma_components_of_joined(parts: Seq<Seq<char>>)
    requires
        forall|i: int| 0 <= i < parts.len() ==> is_segment(#[trigger] parts[i]),
    ensures
        components(joined(parts)) == parts,
    decreases parts.len(),
{
    if parts.len() == 0 {
        assert(components(joined(parts)) =~= parts);
    } else {
        let last = parts.last();
        assert(is_segment(last));
        lemma_segment_len(last, last.len() as int);
        assert(last.take(last.len() as int) =~= last);
        assert(components(last) =~= seq![last]);
        if parts.len() == 1 {
            assert(components(joined(parts)) =~= parts);
        } else {
            let front = parts.drop_last();
            assert forall|i: int| 0 <= i < front.len() implies is_segment(#[trigger] front[i]) by {
                assert(front[i] == parts[i]);
            }
            lemma_components_of_joined(front);
            lemma_components_concat(joined(front), last);
            assert(front + seq![last] =~= parts);
        }
    }
}

/// The components of a path are segments.
pub proof fn lemma_components_are_segments(s: Seq<char>)
    ensures
        forall|i: int| 0 <= i < components(s).len() ==> is_segment(#[trigger] components(s)[i]),
    decreases s.len(),
{
    let n = segment_len(s);
    lemma_segment(s);
    if n < s.len() {
        lemma_components_are_segments(s.skip(n as int + 1));
    }
    assert forall|i: int| 0 <= i < components(s).len() implies is_segment(
        #[trigger] components(s)[i],
    ) by {
        if n > 0 && i == 0 {
            assert(components(s)[0] == s.take(n as int));
        } else if n < s.len() {
            let rest = components(s.skip(n as int + 1));
            if n > 0 {
                assert(components(s)[i] == rest[i - 1]);
            } else {
                assert(components(s)[i] == rest[i]);
            }
        }
    }
}

/// An entry that lies below the logical root is installed below the
/// plugin's name, at the path that it has behind the root: nothing of what
/// stands above the root in the archive is left in its place.
pub proof fn lemma_reconciled(
    root: Seq<Seq<char>>,
    root_name: Seq<char>,
    entry: EntryView,
    rest: Seq<Seq<char>>,
)
    requires
        components(entry.name) == root + rest,
        is_segment(root_name),
    ensures
        match step_of(root, root_name, entry) {
            StepView::MakeDir { path } => entry.is_dir && components(path) == seq![root_name]
                + rest,
            StepView::WriteFile { dir, path } => !entry.is_dir && components(path) == seq![
                root_name,
            ] + rest && components(dir) == (seq![root_name] + rest).drop_last(),
            StepView::Skip { .. } => false,
        },
{
    let parts = components(entry.name);
    assert(parts.take(root.len() as int) =~= root);
    assert(parts.skip(root.len() as int) =~= rest);
    lemma_components_are_segments(entry.name);
    let target = seq![root_name] + rest;
    assert forall|i: int| 0 <= i < target.len() implies is_segment(#[trigger] target[i]) by {
        if i > 0 {
            assert(target[i] == parts[root.len() + i - 1]);
        }
    }
    lemma_components_of_joined(target);
    assert forall|i: int| 0 <= i < target.drop_last().len() implies is_segment(
        #[trigger] target.drop_last()[i],
    ) by {
        assert(target.drop_last()[i] == target[i]);
    }
    lemma_components_of_joined(target.drop_last());
}

/// The components of a path.
pub fn split_path(name: &str) -> (parts: Vec<String>)
    ensures
        views(parts@) == components(name@),
{
    let chars = chars_of(name);
    let n: usize = chars.len();
    let mut parts: Vec<String> = Vec::new();
    let mut i: usize = 0;
    assert(name@.skip(0) =~= name@);
    assert(views(parts@) =~= Seq::<Seq<char>>::empty());
    while i < n
        invariant
            chars@ == name@,
            n == chars.len(),
            i <= n,
            components(name@) == views(parts@) + components(name@.skip(i as int)),
        decreases n - i,
    {
        let mut j: usize = i;
        while j < n && chars[j] != '/'
            invariant
                chars@ == name@,
                n == chars.len(),
                i <= j <= n,
                forall|k: int| i <= k < j ==> chars@[k] != '/',
            decreases n - j,
        {
            j = j + 1;
        }
        let ghost rest = name@.skip(i as int);
        proof {
            assert forall|k: int| 0 <= k < j - i implies rest[k] != '/' by {
                assert(rest[k] == chars@[i + k]);
            }
            if j < n {
                assert(rest[j - i] == chars@[j as int]);
            }
            lemma_segment_len(rest, j - i);
        }
        let ghost before = views(parts@);
        if j > i {
            let piece = name.substring_char(i, j);
            parts.push(piece.to_owned());
            assert(rest.take(j - i) =~= name@.subrange(i as int, j as int));
            assert(views(parts@) =~= before + seq![rest.take(j - i)]);
        }
        if j >= n {
            assert(name@.skip(n as int).len() == 0);
            assert(components(name@.skip(n as int)) =~= Seq::<Seq<char>>::empty());
            assert(components(name@) =~= views(parts@) + components(name@.skip(n as int)));
            i = n;
        } else {
            assert(rest.skip(j - i + 1) =~= name@.skip(j + 1));
            assert(components(name@) =~= views(parts@) + components(name@.skip(j + 1)));
            i = j + 1;
        }
    }
    assert(name@.skip(n as int).len() == 0);
    assert(components(name@.skip(n as int)) =~= Seq::<Seq<char>>::empty());
    assert(components(name@) =~= views(parts@));
    parts
}

/// Whether the path `parts` lies below the directory `root`, or is it.
pub fn under(root: &Vec<String>, parts: &Vec<String>) -> (r: bool)
    ensures
        r == is_under(views(root@), views(parts@)),
{
    if root.len() > parts.len() {
        return false;
    }
    let ghost head = views(parts@).take(root.len() as int);
    let mut i: usize = 0;
    while i < root.len()
        invariant
            root.len() <= parts.len(),
            i <= root.len(),
            head == views(parts@).take(root.len() as int),
            forall|j: int| 0 <= j < i ==> head[j] == views(root@)[j],
        decreases root.len() - i,
    {
        if !same(root[i].as_str(), parts[i].as_str()) {
            assert(head[i as int] != views(root@)[i as int]);
            return false;
        }
        i = i + 1;
    }
    assert(head =~= views(root@));
    true
}

/// The path made of `root_name` and of the components of `parts` from
/// `from` up to `to`.
fn target(root_name: &str, parts: &Vec<String>, from: usize, to: usize) -> (path: String)
    requires
        from <= to <= parts.len(),
    ensures
        path@ == joined(seq![root_name@] + views(parts@).subrange(from as int, to as int)),
{
    let mut path = root_name.to_owned();
    let mut k: usize = from;
    assert(seq![root_name@] + views(parts@).subrange(from as int, from as int) =~= seq![
        root_name@,
    ]);
    while k < to
        invariant
            from <= k <= to,
            to <= parts.len(),
            path@ == joined(seq![root_name@] + views(parts@).subrange(from as int, k as int)),
        decreases to - k,
    {
        let ghost so_far = seq![root_name@] + views(parts@).subrange(from as int, k as int);
        let ghost next = seq![root_name@] + views(parts@).subrange(from as int, k + 1);
        proof {
            reveal_strlit("/");
            assert("/"@ =~= seq!['/']);
            assert(next.drop_last() =~= so_far);
            assert(next.last() == parts@[k as int]@);
        }
        path.append("/");
        path.append(parts[k].as_str());
        k = k + 1;
    }
    path
}

/// What is done with one entry, given the archive's logical root and the
/// name under which the plugin is installed.
pub fn plan_step(root: &Vec<String>, root_name: &str, entry: &ArchiveEntry) -> (step: ExtractStep)
    ensures
        step@ == step_of(views(root@), root_name@, entry@),
{
    let parts = split_path(entry.name.as_str());
    if !under(root, &parts) {
        return ExtractStep::Skip { name: entry.name.clone() };
    }
    let ghost rest = views(parts@).skip(root.len() as int);
    let ghost whole = seq![root_name@] + rest;
    assert(views(parts@).subrange(root.len() as int, parts.len() as int) =~= rest);
    let path = target(root_name, &parts, root.len(), parts.len());
    if entry.is_dir {
        ExtractStep::MakeDir { path }
    } else {
        let dir = if parts.len() == root.len() {
            assert(whole.drop_last() =~= Seq::<Seq<char>>::empty());
            String::new()
        } else {
            assert(whole.drop_last() =~= seq![root_name@] + views(parts@).subrange(
                root.len() as int,
                parts.len() - 1,
            ));
            target(root_name, &parts, root.len(), parts.len() - 1)
        };
        ExtractStep::WriteFile { dir, path }
    }
}

/// The first library binary among the entries.
pub fn find_library(entries: &Vec<ArchiveEntry>) -> (r: Option<usize>)
    ensures
        match r {
            Some(at) => find_library_index(entry_views(entries@)) == Some(at as int),
            None => find_library_index(entry_views(entries@)) is None,
        },
{
    let ghost all = entry_views(entries@);
    let mut i: usize = 0;
    while i < entries.len()
        invariant
            i <= entries.len(),
            all == entry_views(entries@),
            find_library_index(all.take(i as int)) is None,
        decreases entries.len() - i,
    {
        proof {
            assert(all.take(i + 1).drop_last() == all.take(i as int));
            assert(all.take(i + 1).last() == all[i as int]);
        }
        if has_suffix(entries[i].name.as_str(), ".dll") {
            proof {
                lemma_find_library_grows(all, i + 1);
            }
            return Some(i);
        }
        i = i + 1;
    }
    assert(all.take(i as int) == all);
    None
}

/// The plan for an archive: the library binary that fixed the logical root,
/// and one step for each entry, in the entries' order.
#[derive(Clone, Debug, PartialEq, Eq)]
pub struct Plan {
    pub library: usize,
    pub steps: Vec<ExtractStep>,
}

/// Plans the extraction of an archive into the directory `root_name`.
///
/// The directory of the first library binary is the archive's logical root.
/// Each entry below it goes to `root_name`, followed by its path behind the
/// logical root; every other entry is skipped. An archive without a library
/// binary is malformed, and nothing is planned for it.
pub fn plan_extraction(entries: &Vec<ArchiveEntry>, root_name: &str) -> (r: Result<Plan, Error>)
    ensures
        match r {
            Ok(plan) => {
                &&& find_library_index(entry_views(entries@)) == Some(plan.library as int)
                &&& plan_of(entry_views(entries@), root_name@) == Some(step_views(plan.steps@))
            },
            Err(e) => {
                &&& e@ == ErrorView::MalformedArchive
                &&& plan_of(entry_views(entries@), root_name@) is None
            },
        },
{
    let library = match find_library(entries) {
        Some(at) => at,
        None => {
            return Err(Error::MalformedArchive);
        },
    };
    proof {
        lemma_find_library_index(entry_views(entries@));
    }
    let mut root = split_path(entries[library].name.as_str());
    if root.len() > 0 {
        root.pop();
    }
    assert(views(root@) =~= parent_of(entries@[library as int].name@));
    let mut steps: Vec<ExtractStep> = Vec::new();
    let mut i: usize = 0;
    while i < entries.len()
        invariant
            i <= entries.len(),
            steps.len() == i,
            forall|j: int|
                0 <= j < i ==> (#[trigger] steps@[j])@ == step_of(
                    views(root@),
                    root_name@,
                    entries@[j]@,
                ),
        decreases entries.len() - i,
    {
        steps.push(plan_step(&root, root_name, &entries[i]));
        i = i + 1;
    }
    assert(step_views(steps@) =~= planned(views(root@), root_name@, entry_views(entries@)));
    Ok(Plan { library, steps })
}

} // verus!
