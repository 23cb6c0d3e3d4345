//! Detection of application bundles: directories that the desktop shows as one
//! file, recognised by the suffix of a path component or by what they hold.

use vstd::prelude::*;
use vstd::string::StringExecFns;
use crate::paths::{components, is_component};
use crate::text::{
    chars_of, contains, ends_with, find, first_occurrence, has_suffix, lowercase, to_lowercase,
};

verus! {

/// The suffixes that mark a bundle when no list was configured.
pub open spec fn builtin_suffixes() -> Seq<Seq<char>> {
    seq![
        ".app"@,
        ".bundle"@,
        ".framework"@,
        ".fcpbundle"@,
        ".photoslibrary"@,
        ".imovielibrary"@,
        ".tvlibrary"@,
        ".theater"@,
    ]
}

/// The suffixes served while the configured list is missing or stale.
pub open spec fn fallback_suffixes() -> Seq<Seq<char>> {
    seq![
        ".app"@,
        ".bundle"@,
        ".framework"@,
        ".fcpbundle"@,
        ".photoslibrary"@,
        ".imovielibrary"@,
        ".tvlibrary"@,
        ".theater"@,
        ".plugin"@,
        ".component"@,
        ".colorSync"@,
        ".mdimporter"@,
        ".qlgenerator"@,
        ".saver"@,
        ".service"@,
        ".wdgt"@,
        ".xpc"@,
    ]
}

/// The markers that show a path to lead into a bundle: a bundle suffix and the
/// separator after it.
pub open spec fn interior_markers() -> Seq<Seq<char>> {
    seq![
        ".app/"@,
        ".bundle/"@,
        ".framework/"@,
        ".fcpbundle/"@,
        ".photoslibrary/"@,
        ".imovielibrary/"@,
        ".tvlibrary/"@,
        ".theater/"@,
    ]
}

/// `name` ends with one of `suffixes`.
pub open spec fn suffix_in(name: Seq<char>, suffixes: Seq<Seq<char>>) -> bool {
    exists|i: int| 0 <= i < suffixes.len() && ends_with(name, #[trigger] suffixes[i])
}

/// The lower-case form of `name` ends with one of `suffixes`.
pub open spec fn bundle_name(name: Seq<char>, suffixes: Seq<Seq<char>>) -> bool {
    suffix_in(lowercase(name), suffixes)
}

/// Some component of `p` is a bundle name.
pub open spec fn names_bundle(p: Seq<char>, suffixes: Seq<Seq<char>>) -> bool {
    p.len() > 0 && exists|a: int, b: int|
        is_component(p, a, b) && bundle_name(p.subrange(a, b), suffixes)
}

/// `marker` is the first of `markers` that occurs in `p`.
pub open spec fn first_marker(p: Seq<char>, markers: Seq<Seq<char>>, n: int) -> bool {
    &&& 0 <= n < markers.len()
    &&& contains(p, markers[n])
    &&& forall|m: int| 0 <= m < n ==> !contains(p, #[trigger] markers[m])
}

/// One of `markers` occurs in `p`.
pub open spec fn marker_in(p: Seq<char>, markers: Seq<Seq<char>>) -> bool {
    exists|n: int| 0 <= n < markers.len() && contains(p, #[trigger] markers[n])
}

/// `p` leads into a bundle.
pub open spec fn inside_bundle(p: Seq<char>) -> bool {
    marker_in(p, interior_markers())
}

/// `root` is the bundle that `p` leads into: `p` up to the end of the suffix,
/// at the first place where the first marker found in `p` occurs.
pub open spec fn is_enclosing_bundle(p: Seq<char>, markers: Seq<Seq<char>>, root: Seq<char>) -> bool {
    exists|n: int, i: int|
        first_marker(p, markers, n) && first_occurrence(p, markers[n], i) && root == p.subrange(
            0,
            i + markers[n].len() - 1,
        )
}

/// A path leads into one bundle at most.
pub proof fn lemma_enclosing_bundle_unique(
    p: Seq<char>,
    markers: Seq<Seq<char>>,
    a: Seq<char>,
    b: Seq<char>,
)
    requires
        is_enclosing_bundle(p, markers, a),
        is_enclosing_bundle(p, markers, b),
    ensures
        a == b,
{
    let (n, i) = choose|n: int, i: int|
        first_marker(p, markers, n) && first_occurrence(p, markers[n], i) && a == p.subrange(
            0,
            i + markers[n].len() - 1,
        );
    let (m, j) = choose|m: int, j: int|
        first_marker(p, markers, m) && first_occurrence(p, markers[m], j) && b == p.subrange(
            0,
            j + markers[m].len() - 1,
        );
    assert(n == m);
    assert(i == j);
}

/// The list of the suffixes that mark a bundle when no list was configured.
pub fn builtin_bundle_extensions() -> (r: Vec<String>)
    ensures
        r.deep_view() == builtin_suffixes(),
{
    let mut r: Vec<String> = Vec::new();
    r.push(String::from_str(".app"));
    r.push(String::from_str(".bundle"));
    r.push(String::from_str(".framework"));
    r.push(String::from_str(".fcpbundle"));
    r.push(String::from_str(".photoslibrary"));
    r.push(String::from_str(".imovielibrary"));
    r.push(String::from_str(".tvlibrary"));
    r.push(String::from_str(".theater"));
    assert(r.deep_view() =~= builtin_suffixes());
    r
}

/// The list of the suffixes served while the configured list is missing or
/// stale.
pub fn fallback_bundle_extensions() -> (r: Vec<String>)
    ensures
        r.deep_view() == fallback_suffixes(),
{
    let mut r: Vec<String> = Vec::new();
    r.push(String::from_str(".app"));
    r.push(String::from_str(".bundle"));
    r.push(String::from_str(".framework"));
    r.push(String::from_str(".fcpbundle"));
    r.push(String::from_str(".photoslibrary"));
    r.push(String::from_str(".imovielibrary"));
    r.push(String::from_str(".tvlibrary"));
    r.push(String::from_str(".theater"));
    r.push(String::from_str(".plugin"));
    r.push(String::from_str(".component"));
    r.push(String::from_str(".colorSync"));
    r.push(String::from_str(".mdimporter"));
    r.push(String::from_str(".qlgenerator"));
    r.push(String::from_str(".saver"));
    r.push(String::from_str(".service"));
    r.push(String::from_str(".wdgt"));
    r.push(String::from_str(".xpc"));
    assert(r.deep_view() =~= fallback_suffixes());
    r
}

/// The list of the markers that show a path to lead into a bundle.
pub fn bundle_interior_markers() -> (r: Vec<String>)
    ensures
        r.deep_view() == interior_markers(),
{
    let mut r: Vec<String> = Vec::new();
    r.push(String::from_str(".app/"));
    r.push(String::from_str(".bundle/"));
    r.push(String::from_str(".framework/"));
    r.push(String::from_str(".fcpbundle/"));
    r.push(String::from_str(".photoslibrary/"));
    r.push(String::from_str(".imovielibrary/"));
    r.push(String::from_str(".tvlibrary/"));
    r.push(String::from_str(".theater/"));
    assert(r.deep_view() =~= interior_markers());
    r
}

/// Whether `name` ends with one of `suffixes`.
pub fn ends_with_any(name: &[char], suffixes: &Vec<String>) -> (r: bool)
    ensures
        r == suffix_in(name@, suffixes.deep_view()),
{
    let ghost list = suffixes.deep_view();
    let mut n: usize = 0;
    while n < suffixes.len()
        invariant
            n <= suffixes.len(),
            list == suffixes.deep_view(),
            forall|i: int| 0 <= i < n ==> !ends_with(name@, #[trigger] list[i]),
        decreases suffixes.len() - n,
    {
        let suffix = chars_of(suffixes[n].as_str());
        assert(list[n as int] == suffixes[n as int]@);
        if has_suffix(name, suffix.as_slice()) {
            return true;
        }
        n += 1;
    }
    false
}

/// Whether the lower-case form of the component `path[a..b]` ends with one of
/// `suffixes`.
pub fn component_is_bundle(path: &str, a: usize, b: usize, suffixes: &Vec<String>) -> (r: bool)
    requires
        a <= b <= path@.len(),
    ensures
        r == bundle_name(path@.subrange(a as int, b as int), suffixes.deep_view()),
{
    let lowered = to_lowercase(path.substring_char(a, b));
    let name = chars_of(lowered.as_str());
    ends_with_any(name.as_slice(), suffixes)
}

/// Whether some component of `path` is a bundle name under `suffixes`. The
/// empty path names nothing.
pub fn path_names_bundle(path: &str, suffixes: &Vec<String>) -> (r: bool)
    ensures
        r == names_bundle(path@, suffixes.deep_view()),
{
    let p = chars_of(path);
    if p.len() == 0 {
        return false;
    }
    let ghost list = suffixes.deep_view();
    let v = components(p.as_slice());
    let mut n: usize = 0;
    while n < v.len()
        invariant
            n <= v.len(),
            p@ == path@,
            p@.len() > 0,
            list == suffixes.deep_view(),
            forall|i: int| 0 <= i < v.len() ==> is_component(p@, (#[trigger] v[i]).0 as int, v[i].1 as int),
            forall|i: int| 0 <= i < n ==> !bundle_name(p@.subrange((#[trigger] v[i]).0 as int, v[i].1 as int), list),
        decreases v.len() - n,
    {
        let (a, b) = v[n];
        assert(is_component(p@, v[n as int].0 as int, v[n as int].1 as int));
        if component_is_bundle(path, a, b, suffixes) {
            assert(is_component(path@, a as int, b as int) && bundle_name(
                path@.subrange(a as int, b as int),
                list,
            ));
            return true;
        }
        n += 1;
    }
    proof {
        assert forall|a: int, b: int| is_component(p@, a, b) implies !bundle_name(
            p@.subrange(a, b),
            list,
        ) by {
            let i = choose|i: int| 0 <= i < v.len() && (#[trigger] v[i]).0 == a && v[i].1 == b;
            assert(!bundle_name(p@.subrange(v[i].0 as int, v[i].1 as int), list));
        }
    }
    false
}

/// The first of `markers` that occurs in `p`, and where it first occurs.
pub fn find_marker(p: &[char], markers: &Vec<String>) -> (r: Option<(usize, usize, usize)>)
    ensures
        match r {
            Some((n, i, len)) => first_marker(p@, markers.deep_view(), n as int)
                && first_occurrence(p@, markers.deep_view()[n as int], i as int)
                && len == markers.deep_view()[n as int].len(),
            None => !marker_in(p@, markers.deep_view()),
        },
{
    let ghost list = markers.deep_view();
    let mut n: usize = 0;
    while n < markers.len()
        invariant
            n <= markers.len(),
            list == markers.deep_view(),
            forall|m: int| 0 <= m < n ==> !contains(p@, #[trigger] list[m]),
        decreases markers.len() - n,
    {
        let marker = chars_of(markers[n].as_str());
        assert(list[n as int] == markers[n as int]@);
        match find(p, marker.as_slice()) {
            Some(i) => {
                return Some((n, i, marker.len()));
            },
            None => {},
        }
        n += 1;
    }
    None
}

/// Whether `path` leads into a bundle: whether it holds a bundle suffix
/// followed by a separator.
pub fn is_inside_bundle(path: &str) -> (r: bool)
    ensures
        r == inside_bundle(path@),
{
    let p = chars_of(path);
    let markers = bundle_interior_markers();
    find_marker(p.as_slice(), &markers).is_some()
}

} // verus!
