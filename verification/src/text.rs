//! Helpers on strings, stated over their sequences of characters.

use vstd::prelude::*;
use vstd::string::*;

verus! {

/// `pat` stands in `text` at offset `at`.
pub open spec fn occurs_at(pat: Seq<char>, text: Seq<char>, at: int) -> bool {
    &&& 0 <= at
    &&& at + pat.len() <= text.len()
    &&& text.subrange(at, at + pat.len()) == pat
}

/// `pat` stands somewhere in `text`.
pub open spec fn occurs_in(pat: Seq<char>, text: Seq<char>) -> bool {
    exists|at: int| occurs_at(pat, text, at)
}

/// `pat` is the beginning of `text`.
pub open spec fn starts(pat: Seq<char>, text: Seq<char>) -> bool {
    occurs_at(pat, text, 0)
}

/// `pat` is the end of `text`.
pub open spec fn ends(pat: Seq<char>, text: Seq<char>) -> bool {
    occurs_at(pat, text, text.len() - pat.len())
}

/// The views of a sequence of strings.
pub open spec fn views(items: Seq<String>) -> Seq<Seq<char>> {
    items.map_values(|s: String| s@)
}

/// The view of an optional string.
pub open spec fn opt_view(item: Option<String>) -> Option<Seq<char>> {
    match item {
        Some(s) => Some(s@),
        None => None,
    }
}

/// The view of an optional string slice.
pub open spec fn opt_str_view(item: Option<&str>) -> Option<Seq<char>> {
    match item {
        Some(s) => Some(s@),
        None => None,
    }
}

/// The characters of `s`, in order.
pub fn chars_of(s: &str) -> (v: Vec<char>)
    ensures
        v@ == s@,
{
    let mut v: Vec<char> = Vec::new();
    for c in it: s.chars()
        invariant
            it.seq() == s@,
            v@ == s@.subrange(0, it.index() as int),
    {
        v.push(c);
    }
    assert(v@ == s@);
    v
}

/// Whether `pat` stands in `text` at offset `at`.
pub fn found_at(pat: &Vec<char>, text: &Vec<char>, at: usize) -> (r: bool)
    ensures
        r == occurs_at(pat@, text@, at as int),
{
    if at > text.len() || pat.len() > text.len() - at {
        return false;
    }
    let ghost window = text@.subrange(at as int, at + pat.len());
    let mut k: usize = 0;
    while k < pat.len()
        invariant
            at + pat.len() <= text.len(),
            k <= pat.len(),
            window == text@.subrange(at as int, at + pat.len()),
            forall|j: int| 0 <= j < k ==> window[j] == pat@[j],
        decreases pat.len() - k,
    {
        if text[at + k] != pat[k] {
            assert(window[k as int] != pat@[k as int]);
            return false;
        }
        k = k + 1;
    }
    assert(window =~= pat@);
    true
}

/// Whether `text` begins with `prefix`.
pub fn has_prefix(text: &str, prefix: &str) -> (r: bool)
    ensures
        r == starts(prefix@, text@),
{
    let t = chars_of(text);
    let p = chars_of(prefix);
    found_at(&p, &t, 0)
}

/// Whether `text` ends with `suffix`.
pub fn has_suffix(text: &str, suffix: &str) -> (r: bool)
    ensures
        r == ends(suffix@, text@),
{
    let t = chars_of(text);
    let p = chars_of(suffix);
    if p.len() > t.len() {
        return false;
    }
    found_at(&p, &t, t.len() - p.len())
}

/// Whether `needle` stands somewhere in `text`.
pub fn contains(text: &str, needle: &str) -> (r: bool)
    ensures
        r == occurs_in(needle@, text@),
{
    let t = chars_of(text);
    let p = chars_of(needle);
    if p.len() > t.len() {
        assert(forall|at: int| !occurs_at(p@, t@, at));
        return false;
    }
    let last: usize = t.len() - p.len();
    let mut at: usize = 0;
    loop
        invariant
            t@ == text@,
            p@ == needle@,
            last == t.len() - p.len(),
            at <= last,
            forall|j: int| 0 <= j < at ==> !occurs_at(p@, t@, j),
        decreases last - at,
    {
        if found_at(&p, &t, at) {
            return true;
        }
        if at == last {
            assert(forall|j: int| !occurs_at(p@, t@, j));
            return false;
        }
        at = at + 1;
    }
}

/// Whether two strings hold the same characters.
pub fn same(a: &str, b: &str) -> (r: bool)
    ensures
        r == (a@ == b@),
{
    let x = chars_of(a);
    let y = chars_of(b);
    if x.len() != y.len() {
        return false;
    }
    let r = found_at(&x, &y, 0);
    assert(y@.subrange(0, y@.len() as int) == y@);
    r
}

/// `text` without its leading `prefix`, where it has one.
pub fn strip_prefix(text: &str, prefix: &str) -> (r: Option<String>)
    ensures
        starts(prefix@, text@) ==> r is Some && r->Some_0@ == text@.skip(prefix@.len() as int),
        !starts(prefix@, text@) ==> r is None,
{
    if has_prefix(text, prefix) {
        let from: usize = prefix.unicode_len();
        let to: usize = text.unicode_len();
        let rest = text.substring_char(from, to);
        assert(text@.subrange(from as int, to as int) == text@.skip(from as int));
        Some(rest.to_owned())
    } else {
        None
    }
}

/// `a` followed by `b`.
pub fn concat2(a: &str, b: &str) -> (r: String)
    ensures
        r@ == a@ + b@,
{
    let mut r = a.to_owned();
    r.append(b);
    r
}

/// `a`, `b` and `c` in a row.
pub fn concat3(a: &str, b: &str, c: &str) -> (r: String)
    ensures
        r@ == a@ + b@ + c@,
{
    let mut r = a.to_owned();
    r.append(b);
    r.append(c);
    r
}

/// A copy of an optional string.
pub fn clone_opt(item: &Option<String>) -> (r: Option<String>)
    ensures
        opt_view(r) == opt_view(*item),
{
    match item {
        Some(s) => Some(s.clone()),
        None => None,
    }
}

/// A copy of a list of strings.
pub fn clone_all(items: &Vec<String>) -> (r: Vec<String>)
    ensures
        views(r@) == views(items@),
{
    let mut r: Vec<String> = Vec::new();
    let mut i: usize = 0;
    while i < items.len()
        invariant
            i <= items.len(),
            r.len() == i,
            forall|j: int| 0 <= j < i ==> r@[j]@ == items@[j]@,
        decreases items.len() - i,
    {
        r.push(items[i].clone());
        i = i + 1;
    }
    assert(views(r@) =~= views(items@));
    r
}

} // verus!
