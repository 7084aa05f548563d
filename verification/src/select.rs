//! Asset selection: by pattern, by architecture, or by hand.

use vstd::prelude::*;
use vstd::string::*;

use crate::arch::{token_of, upper_token_of, Arch};
use crate::error::{Error, ErrorView};
use crate::release::{asset_views, Asset, AssetView};
use crate::text::{chars_of, contains, ends, has_suffix, occurs_in};

verus! {

/// Whether `regex::Regex::new` accepts a pattern.
pub uninterp spec fn regex_compiles(pattern: Seq<char>) -> bool;

/// Whether the regular expression compiled from a pattern has a match
/// anywhere in a text.
pub uninterp spec fn regex_is_match(pattern: Seq<char>, text: Seq<char>) -> bool;

/// Compiles `pattern` with `regex::Regex::new` and searches `text` with
/// `Regex::is_match`. The contract claims that both depend on their
/// arguments alone: `None` comes exactly for a pattern that does not compile,
/// whatever the text, and otherwise the answer is that of the search.
#[verifier::external_body]
fn pattern_match(pattern: &str, text: &str) -> (r: Option<bool>)
    ensures
        r == (if regex_compiles(pattern@) {
            Some(regex_is_match(pattern@, text@))
        } else {
            None
        }),
{
    match regex::Regex::new(pattern) {
        Ok(re) => Some(re.is_match(text)),
        Err(_) => None,
    }
}

/// What the outcome of a pattern's match means for the selection.
pub open spec fn hit_of(outcome: Option<bool>, pattern: Seq<char>) -> Result<bool, ErrorView> {
    match outcome {
        Some(hit) => Ok(hit),
        None => Err(ErrorView::InvalidPattern(pattern)),
    }
}

/// Takes the outcome of matching `pattern` against an asset's name: whether
/// the name matched, or `None` where the pattern is no regular expression,
/// which is the error `InvalidPattern` with the pattern in it.
pub fn match_outcome(outcome: Option<bool>, pattern: &str) -> (r: Result<bool, Error>)
    ensures
        match r {
            Ok(hit) => hit_of(outcome, pattern@) == Ok::<bool, ErrorView>(hit),
            Err(e) => hit_of(outcome, pattern@) == Err::<bool, ErrorView>(e@),
        },
{
    match outcome {
        Some(hit) => Ok(hit),
        None => Err(Error::InvalidPattern(pattern.to_owned())),
    }
}

/// An asset name is for an architecture when it holds the architecture's
/// token, in lower or in upper case, and ends in `.zip`.
pub open spec fn is_arch_name(name: Seq<char>, arch: Arch) -> bool {
    &&& occurs_in(token_of(arch), name) || occurs_in(upper_token_of(arch), name)
    &&& ends(".zip"@, name)
}

impl Asset {
    /// Whether this asset is the archive for `arch`.
    pub fn is_arch(&self, arch: &Arch) -> (r: bool)
        ensures
            r == is_arch_name(self.name@, *arch),
    {
        (contains(self.name.as_str(), arch.token()) || contains(
            self.name.as_str(),
            arch.upper_token(),
        )) && has_suffix(self.name.as_str(), ".zip")
    }
}

/// Whether an asset is wanted: by the pattern where there is one, by the
/// architecture otherwise.
pub open spec fn wanted(asset: AssetView, pattern: Option<Seq<char>>, arch: Arch) -> bool {
    match pattern {
        Some(p) => regex_is_match(p, asset.name),
        None => is_arch_name(asset.name, arch),
    }
}

/// `at` is the first wanted asset.
pub open spec fn first_wanted(
    assets: Seq<AssetView>,
    pattern: Option<Seq<char>>,
    arch: Arch,
    at: int,
) -> bool {
    &&& 0 <= at < assets.len()
    &&& wanted(assets[at], pattern, arch)
    &&& forall|j: int| 0 <= j < at ==> !wanted(#[trigger] assets[j], pattern, arch)
}

/// No asset is wanted.
pub open spec fn none_wanted(assets: Seq<AssetView>, pattern: Option<Seq<char>>, arch: Arch) -> bool {
    forall|j: int| 0 <= j < assets.len() ==> !wanted(#[trigger] assets[j], pattern, arch)
}

/// How an asset is to be chosen.
#[derive(Clone, Copy, Debug, PartialEq, Eq, Structural)]
pub enum Selection {
    /// The asset at this index is taken.
    Picked(usize),
    /// The user is asked to pick one by its index.
    Manual,
}

/// What follows from a search among `count` assets that found the asset at
/// `found`, or none.
pub open spec fn settled(count: nat, found: Option<usize>) -> Result<Selection, ErrorView> {
    if count == 0 {
        Err(ErrorView::NoMatchingAsset)
    } else if count == 1 {
        Ok(Selection::Picked(0))
    } else {
        match found {
            Some(i) => Ok(Selection::Picked(i)),
            None => Ok(Selection::Manual),
        }
    }
}

/// What a search among `count` assets comes to: a release without assets
/// offers nothing, a single asset is taken as it is, a found asset is taken,
/// and otherwise the user is asked.
pub fn settle(count: usize, found: Option<usize>) -> (r: Result<Selection, Error>)
    ensures
        match r {
            Ok(s) => settled(count as nat, found) == Ok::<Selection, ErrorView>(s),
            Err(e) => settled(count as nat, found) == Err::<Selection, ErrorView>(e@),
        },
{
    if count == 0 {
        Err(Error::NoMatchingAsset)
    } else if count == 1 {
        Ok(Selection::Picked(0))
    } else {
        match found {
            Some(i) => Ok(Selection::Picked(i)),
            None => Ok(Selection::Manual),
        }
    }
}

/// The first wanted asset, if any.
pub open spec fn find_wanted(assets: Seq<AssetView>, pattern: Option<Seq<char>>, arch: Arch) -> Option<
    int,
>
    decreases assets.len(),
{
    if assets.len() == 0 {
        None
    } else {
        match find_wanted(assets.drop_last(), pattern, arch) {
            Some(i) => Some(i),
            None => if wanted(assets.last(), pattern, arch) {
                Some(assets.len() - 1)
            } else {
                None
            },
        }
    }
}

/// What `find_wanted` finds is the first wanted asset; it finds none only
/// where none is wanted.
pub proof fn lemma_find_wanted(assets: Seq<AssetView>, pattern: Option<Seq<char>>, arch: Arch)
    ensures
        match find_wanted(assets, pattern, arch) {
            Some(i) => first_wanted(assets, pattern, arch, i),
            None => none_wanted(assets, pattern, arch),
        },
    decreases assets.len(),
{
    if assets.len() > 0 {
        let front = assets.drop_last();
        lemma_find_wanted(front, pattern, arch);
        match find_wanted(front, pattern, arch) {
            Some(i) => {
                assert(front[i] == assets[i]);
                assert forall|j: int| 0 <= j < i implies !wanted(
                    #[trigger] assets[j],
                    pattern,
                    arch,
                ) by {
                    assert(front[j] == assets[j]);
                }
            },
            None => {
                assert forall|j: int| 0 <= j < assets.len() - 1 implies !wanted(
                    #[trigger] assets[j],
                    pattern,
                    arch,
                ) by {
                    assert(front[j] == assets[j]);
                }
            },
        }
    }
}

/// The selection among the assets of a release, by `pattern` or, where there
/// is none, by `arch`.
pub open spec fn selection_of(assets: Seq<AssetView>, pattern: Option<Seq<char>>, arch: Arch) -> Result<
    Selection,
    ErrorView,
> {
    if assets.len() == 0 {
        Err(ErrorView::NoMatchingAsset)
    } else if assets.len() == 1 {
        Ok(Selection::Picked(0))
    } else if pattern is Some && !regex_compiles(pattern->Some_0) {
        Err(ErrorView::InvalidPattern(pattern->Some_0))
    } else {
        match find_wanted(assets, pattern, arch) {
            Some(i) => Ok(Selection::Picked(i as usize)),
            None => Ok(Selection::Manual),
        }
    }
}

/// The value of a selection's result.
pub open spec fn selection_view(r: Result<Selection, Error>) -> Result<Selection, ErrorView> {
    match r {
        Ok(s) => Ok(s),
        Err(e) => Err(e@),
    }
}

/// With a pattern, the architecture has no say in the selection.
pub proof fn lemma_pattern_precedes(
    assets: Seq<AssetView>,
    pattern: Seq<char>,
    one: Arch,
    other: Arch,
)
    ensures
        selection_of(assets, Some(pattern), one) == selection_of(assets, Some(pattern), other),
    decreases assets.len(),
{
    lemma_find_wanted_by_pattern(assets, pattern, one, other);
}

proof fn lemma_find_wanted_by_pattern(
    assets: Seq<AssetView>,
    pattern: Seq<char>,
    one: Arch,
    other: Arch,
)
    ensures
        find_wanted(assets, Some(pattern), one) == find_wanted(assets, Some(pattern), other),
    decreases assets.len(),
{
    if assets.len() > 0 {
        lemma_find_wanted_by_pattern(assets.drop_last(), pattern, one, other);
    }
}

/// Selects one asset of a release.
///
/// A release with a single asset yields that asset, unmatched. Otherwise the
/// first asset that the pattern matches is taken or, without a pattern, the
/// first archive for the architecture; where none is found the user has to
/// choose. A release without assets is an error, and so is a pattern that is
/// no regular expression.
pub fn select_asset(assets: &Vec<Asset>, pattern: Option<&str>, arch: &Arch) -> (r: Result<
    Selection,
    Error,
>)
    ensures
        selection_view(r) == selection_of(
            asset_views(assets@),
            crate::text::opt_str_view(pattern),
            *arch,
        ),
{
    let ghost views = asset_views(assets@);
    let ghost pat = crate::text::opt_str_view(pattern);
    if assets.len() < 2 {
        return settle(assets.len(), None);
    }
    let mut found: Option<usize> = None;
    let mut i: usize = 0;
    while i < assets.len() && found.is_none()
        invariant
            views == asset_views(assets@),
            pat == crate::text::opt_str_view(pattern),
            i <= assets.len(),
            assets.len() >= 2,
            pat is Some && (i > 0 || found is Some) ==> regex_compiles(pat->Some_0),
            match found {
                Some(k) => k == i && i < assets.len() && find_wanted(
                    views.take(i + 1),
                    pat,
                    *arch,
                ) == Some(i as int),
                None => find_wanted(views.take(i as int), pat, *arch) is None,
            },
        decreases assets.len() - i + (if found is None { 1int } else { 0int }),
    {
        let hit = match pattern {
            Some(p) => match match_outcome(pattern_match(p, assets[i].name.as_str()), p) {
                Ok(hit) => hit,
                Err(e) => {
                    return Err(e);
                },
            },
            None => assets[i].is_arch(arch),
        };
        assert(hit == wanted(views[i as int], pat, *arch));
        assert(views.take(i + 1).drop_last() == views.take(i as int));
        assert(views.take(i + 1).last() == views[i as int]);
        if hit {
            found = Some(i);
        } else {
            i = i + 1;
        }
    }
    proof {
        match found {
            Some(k) => {
                lemma_find_wanted_grows(views, pat, *arch, k + 1);
            },
            None => {
                assert(views.take(i as int) == views);
            },
        }
    }
    settle(assets.len(), found)
}

/// What is found among the first assets is found among all of them.
pub proof fn lemma_find_wanted_grows(
    assets: Seq<AssetView>,
    pattern: Option<Seq<char>>,
    arch: Arch,
    k: int,
)
    requires
        0 <= k <= assets.len(),
        find_wanted(assets.take(k), pattern, arch) is Some,
    ensures
        find_wanted(assets, pattern, arch) == find_wanted(assets.take(k), pattern, arch),
    decreases assets.len(),
{
    if k == assets.len() {
        assert(assets.take(k) == assets);
    } else {
        assert(assets.drop_last().take(k) == assets.take(k));
        lemma_find_wanted_grows(assets.drop_last(), pattern, arch, k);
    }
}

/// The value of a run of decimal digits.
pub open spec fn digits_value(s: Seq<char>) -> nat
    decreases s.len(),
{
    if s.len() == 0 {
        0
    } else {
        digits_value(s.drop_last()) * 10 + ((s.last() as int - '0' as int) as nat)
    }
}

/// Every character is a decimal digit.
pub open spec fn all_digits(s: Seq<char>) -> bool {
    forall|i: int| 0 <= i < s.len() ==> '0' <= #[trigger] s[i] <= '9'
}

/// The number that a text spells: decimal digits, at least one, with at most
/// one `+` in front.
pub open spec fn number_of(text: Seq<char>) -> Option<nat> {
    let body = if text.len() > 0 && text[0] == '+' {
        text.skip(1)
    } else {
        text
    };
    if body.len() > 0 && all_digits(body) {
        Some(digits_value(body))
    } else {
        None
    }
}

/// The value of a run of digits is at least that of each of its beginnings.
pub proof fn lemma_digits_value_grows(s: Seq<char>, k: int)
    requires
        0 <= k <= s.len(),
    ensures
        digits_value(s.take(k)) <= digits_value(s),
    decreases s.len(),
{
    if k == s.len() {
        assert(s.take(k) == s);
    } else {
        lemma_digits_value_grows(s.drop_last(), k);
        assert(s.drop_last().take(k) == s.take(k));
    }
}

/// Reads an index as the user typed it: decimal digits with an optional `+`
/// in front. `None` for any other text and for a number beyond `usize`.
pub fn parse_index(text: &str) -> (r: Option<usize>)
    ensures
        r == (match number_of(text@) {
            Some(n) => if n <= usize::MAX {
                Some(n as usize)
            } else {
                None
            },
            None => None,
        }),
{
    let chars = chars_of(text);
    let start: usize = if chars.len() > 0 && chars[0] == '+' {
        1
    } else {
        0
    };
    let ghost body = chars@.skip(start as int);
    assert(start == 0 ==> body =~= text@);
    if chars.len() == start {
        return None;
    }
    let mut value: usize = 0;
    let mut i: usize = start;
    while i < chars.len()
        invariant
            start <= i <= chars.len(),
            chars@ == text@,
            start == (if text@.len() > 0 && text@[0] == '+' {
                1int
            } else {
                0int
            }),
            body == chars@.skip(start as int),
            start == 0 ==> body == text@,
            all_digits(body.take(i - start)),
            value == digits_value(body.take(i - start)),
        decreases chars.len() - i,
    {
        let c = chars[i];
        assert(c == body[i - start]);
        if c < '0' || c > '9' {
            assert(!all_digits(body));
            return None;
        }
        let d: usize = (c as u32 - '0' as u32) as usize;
        let ghost next = body.take(i - start + 1);
        assert(next.drop_last() == body.take(i - start));
        assert(next.last() == c);
        assert(digits_value(next) == value * 10 + d);
        if value > (usize::MAX - d) / 10 {
            proof {
                lemma_digits_value_grows(body, i - start + 1);
                if all_digits(body) {
                    assert(digits_value(body) > usize::MAX);
                }
            }
            return None;
        }
        value = value * 10 + d;
        i = i + 1;
    }
    assert(body.take(i - start) =~= body);
    Some(value)
}

/// What an answer to the manual prompt selects among `count` assets.
pub open spec fn chosen(count: nat, answer: Seq<char>) -> Option<nat> {
    match number_of(answer) {
        Some(n) => if n < count {
            Some(n)
        } else {
            None
        },
        None => None,
    }
}

/// The asset that the user picked by typing its index: the index where it
/// names one of the assets, `InvalidSelection` otherwise.
pub fn manual_select(assets: &Vec<Asset>, answer: &str) -> (r: Result<usize, Error>)
    ensures
        match r {
            Ok(i) => chosen(assets@.len(), answer@) == Some(i as nat),
            Err(e) => e@ == ErrorView::InvalidSelection && chosen(assets@.len(), answer@) is None,
        },
{
    let count: usize = assets.len();
    match parse_index(answer) {
        Some(i) => if i < count {
            Ok(i)
        } else {
            Err(Error::InvalidSelection)
        },
        None => Err(Error::InvalidSelection),
    }
}

/// The first asset whose name holds `needle`, if any.
pub open spec fn find_named(assets: Seq<AssetView>, needle: Seq<char>) -> Option<int>
    decreases assets.len(),
{
    if assets.len() == 0 {
        None
    } else {
        match find_named(assets.drop_last(), needle) {
            Some(i) => Some(i),
            None => if occurs_in(needle, assets.last().name) {
                Some(assets.len() - 1)
            } else {
                None
            },
        }
    }
}

/// What is found among the first assets is found among all of them.
pub proof fn lemma_find_named_grows(assets: Seq<AssetView>, needle: Seq<char>, k: int)
    requires
        0 <= k <= assets.len(),
        find_named(assets.take(k), needle) is Some,
    ensures
        find_named(assets, needle) == find_named(assets.take(k), needle),
    decreases assets.len(),
{
    if k == assets.len() {
        assert(assets.take(k) == assets);
    } else {
        assert(assets.drop_last().take(k) == assets.take(k));
        lemma_find_named_grows(assets.drop_last(), needle, k);
    }
}

/// What the manager does for itself on the metadata of its latest release:
/// nothing where the tag is `v` and the running version; else it takes the
/// first asset whose name holds the machine's name; a release without such
/// an asset is an error.
pub open spec fn self_update_of(
    tag: Seq<char>,
    assets: Seq<AssetView>,
    current_version: Seq<char>,
    machine: Seq<char>,
) -> Result<Option<int>, ErrorView> {
    if tag == "v"@ + current_version {
        Ok(None)
    } else {
        match find_named(assets, machine) {
            Some(i) => Ok(Some(i)),
            None => Err(ErrorView::NoMatchingAsset),
        }
    }
}

/// Decides how the manager updates itself, given the metadata of its latest
/// release, the version that runs and the machine's name: `Ok(None)` where
/// it is up to date, else the index of the asset to install.
pub fn self_update(
    release: &crate::release::ReleaseMetadata,
    current_version: &str,
    machine: &str,
) -> (r: Result<Option<usize>, Error>)
    ensures
        match r {
            Ok(Some(i)) => self_update_of(release@.tag, release@.assets, current_version@, machine@)
                == Ok::<Option<int>, ErrorView>(Some(i as int)),
            Ok(None) => self_update_of(release@.tag, release@.assets, current_version@, machine@)
                == Ok::<Option<int>, ErrorView>(None),
            Err(e) => self_update_of(release@.tag, release@.assets, current_version@, machine@)
                == Err::<Option<int>, ErrorView>(e@),
        },
{
    let wanted_tag = crate::text::concat2("v", current_version);
    if crate::text::same(release.tag.as_str(), wanted_tag.as_str()) {
        return Ok(None);
    }
    let ghost all = asset_views(release.assets@);
    let mut i: usize = 0;
    while i < release.assets.len()
        invariant
            i <= release.assets.len(),
            all == asset_views(release.assets@),
            release@.tag != "v"@ + current_version@,
            find_named(all.take(i as int), machine@) is None,
        decreases release.assets.len() - i,
    {
        proof {
            assert(all.take(i + 1).drop_last() == all.take(i as int));
            assert(all.take(i + 1).last() == all[i as int]);
        }
        if contains(release.assets[i].name.as_str(), machine) {
            proof {
                lemma_find_named_grows(all, machine@, i + 1);
            }
            return Ok(Some(i));
        }
        i = i + 1;
    }
    assert(all.take(i as int) == all);
    Err(Error::NoMatchingAsset)
}

} // verus!
