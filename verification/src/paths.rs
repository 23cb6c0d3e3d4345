//! Paths as text: components between `/`, the file name, the extension and the
//! test for hidden entries.
//!
//! A path is the sequence of its characters. Its components are the maximal
//! runs without `/`; two adjacent separators hold an empty component.

use vstd::prelude::*;
use crate::text::{chars_of, lowercase, to_lowercase};

verus! {

/// `p[from..to]` is a component of `p`: a maximal run without `/`.
pub open spec fn is_component(p: Seq<char>, from: int, to: int) -> bool {
    &&& 0 <= from <= to <= p.len()
    &&& (from == 0 || p[from - 1] == '/')
    &&& (to == p.len() || p[to] == '/')
    &&& forall|k: int| from <= k < to ==> p[k] != '/'
}

/// A component that marks a hidden entry: it starts with a dot and is neither
/// `.` nor `..`.
pub open spec fn hidden_name(c: Seq<char>) -> bool {
    c.len() > 0 && c[0] == '.' && c != seq!['.'] && c != seq!['.', '.']
}

/// Some component of `p` is a hidden name.
pub open spec fn hidden_path(p: Seq<char>) -> bool {
    exists|a: int, b: int| is_component(p, a, b) && hidden_name(p.subrange(a, b))
}

/// A component that names something: neither empty nor `.`.
pub open spec fn naming(c: Seq<char>) -> bool {
    c.len() > 0 && c != seq!['.']
}

/// `p[from..to]` is the last naming component of `p`.
pub open spec fn is_last_naming(p: Seq<char>, from: int, to: int) -> bool {
    &&& is_component(p, from, to)
    &&& naming(p.subrange(from, to))
    &&& forall|a: int, b: int| is_component(p, a, b) && b > to ==> !naming(p.subrange(a, b))
}

/// `p[from..to]` is the file name of `p`: its last naming component, unless
/// that is `..`.
pub open spec fn is_file_name(p: Seq<char>, from: int, to: int) -> bool {
    is_last_naming(p, from, to) && p.subrange(from, to) != seq!['.', '.']
}

/// `p` has a file name.
pub open spec fn has_file_name(p: Seq<char>) -> bool {
    exists|a: int, b: int| is_file_name(p, a, b)
}

/// The file name of `p`, if it has one.
pub open spec fn file_name(p: Seq<char>) -> Option<Seq<char>> {
    if has_file_name(p) {
        let (a, b) = choose|a: int, b: int| is_file_name(p, a, b);
        Some(p.subrange(a, b))
    } else {
        None
    }
}

/// `i` is the position of the last dot of `name`.
pub open spec fn is_last_dot(name: Seq<char>, i: int) -> bool {
    &&& 0 <= i < name.len()
    &&& name[i] == '.'
    &&& forall|k: int| i < k < name.len() ==> name[k] != '.'
}

/// `name[i + 1..]` is the extension of the file name `name`: what follows its
/// last dot, where that dot is not the first character.
pub open spec fn is_extension_dot(name: Seq<char>, i: int) -> bool {
    is_last_dot(name, i) && i > 0
}

/// The file name `name` has an extension.
pub open spec fn has_extension(name: Seq<char>) -> bool {
    exists|i: int| is_extension_dot(name, i)
}

/// The extension of the file name `name`, as written.
pub open spec fn name_extension(name: Seq<char>) -> Option<Seq<char>> {
    if has_extension(name) {
        let i = choose|i: int| is_extension_dot(name, i);
        Some(name.subrange(i + 1, name.len() as int))
    } else {
        None
    }
}

/// The extension of the path `p`, as written.
pub open spec fn raw_extension(p: Seq<char>) -> Option<Seq<char>> {
    match file_name(p) {
        Some(name) => name_extension(name),
        None => None,
    }
}

/// The extension of the path `p` in lower case.
pub open spec fn extension(p: Seq<char>) -> Option<Seq<char>> {
    match raw_extension(p) {
        Some(e) => Some(lowercase(e)),
        None => None,
    }
}

/// A component of `p` is fixed by where it ends.
pub proof fn lemma_component_by_end(p: Seq<char>, a: int, b: int, c: int)
    requires
        is_component(p, a, b),
        is_component(p, c, b),
    ensures
        a == c,
{
    if a < c {
        assert(p[c - 1] == '/');
    } else if c < a {
        assert(p[a - 1] == '/');
    }
}

/// The bounds of the components of `p`, from left to right.
pub fn components(p: &[char]) -> (v: Vec<(usize, usize)>)
    ensures
        forall|i: int| 0 <= i < v.len() ==> is_component(p@, (#[trigger] v[i]).0 as int, v[i].1 as int),
        forall|a: int, b: int| #[trigger]
            is_component(p@, a, b) ==> exists|i: int|
                0 <= i < v.len() && (#[trigger] v[i]).0 == a && v[i].1 == b,
        forall|i: int, j: int| 0 <= i < j < v.len() ==> (#[trigger] v[i]).1 < (#[trigger] v[j]).0,
        v.len() > 0,
        v[v.len() - 1].1 == p.len(),
{
    let mut v: Vec<(usize, usize)> = Vec::new();
    let mut start: usize = 0;
    let mut i: usize = 0;
    while i < p.len()
        invariant
            start <= i <= p.len(),
            start == 0 || p@[start - 1] == '/',
            forall|k: int| start <= k < i ==> p@[k] != '/',
            forall|n: int| 0 <= n < v.len() ==> is_component(p@, (#[trigger] v[n]).0 as int, v[n].1 as int),
            forall|n: int| 0 <= n < v.len() ==> (#[trigger] v[n]).1 < start,
            forall|n: int, m: int| 0 <= n < m < v.len() ==> (#[trigger] v[n]).1 < (#[trigger] v[m]).0,
            forall|a: int, b: int| #[trigger]
                is_component(p@, a, b) && b < start ==> exists|n: int|
                    0 <= n < v.len() && (#[trigger] v[n]).0 == a && v[n].1 == b,
        decreases p.len() - i,
    {
        if p[i] == '/' {
            let ghost before = v@;
            v.push((start, i));
            proof {
                assert(is_component(p@, start as int, i as int));
                assert forall|a: int, b: int| #[trigger]
                    is_component(p@, a, b) && b < i + 1 implies exists|n: int|
                    0 <= n < v.len() && (#[trigger] v[n]).0 == a && v[n].1 == b by {
                    if b < start {
                        let n = choose|n: int|
                            0 <= n < before.len() && (#[trigger] before[n]).0 == a && before[n].1
                                == b;
                        assert(v[n] == before[n]);
                    } else if b < i {
                        assert(p@[b] == '/');
                    } else {
                        lemma_component_by_end(p@, a, b, start as int);
                        assert(v[v.len() - 1] == (start, i));
                    }
                }
            }
            start = i + 1;
        }
        i += 1;
    }
    let ghost before = v@;
    v.push((start, p.len()));
    proof {
        let len = p@.len() as int;
        assert(is_component(p@, start as int, len));
        assert forall|a: int, b: int| #[trigger] is_component(p@, a, b) implies exists|n: int|
            0 <= n < v.len() && (#[trigger] v[n]).0 == a && v[n].1 == b by {
            if b < start {
                let n = choose|n: int|
                    0 <= n < before.len() && (#[trigger] before[n]).0 == a && before[n].1 == b;
                assert(v[n] == before[n]);
            } else if b < len {
                assert(p@[b] == '/');
            } else {
                lemma_component_by_end(p@, a, b, start as int);
                assert(v[v.len() - 1] == (start, p.len()));
            }
        }
    }
    v
}

/// Whether the component `p[a..b]` is a hidden name.
pub fn component_is_hidden(p: &[char], a: usize, b: usize) -> (r: bool)
    requires
        a <= b <= p.len(),
    ensures
        r == hidden_name(p@.subrange(a as int, b as int)),
{
    let ghost c = p@.subrange(a as int, b as int);
    if b == a || p[a] != '.' {
        assert(c.len() == 0 || c[0] != '.');
        return false;
    }
    assert(c[0] == '.');
    if b - a == 1 {
        assert(c =~= seq!['.']);
        return false;
    }
    if b - a == 2 && p[a + 1] == '.' {
        assert(c[1] == '.');
        assert(c =~= seq!['.', '.']);
        return false;
    }
    proof {
        assert(seq!['.'].len() == 1);
        assert(seq!['.', '.'].len() == 2);
        assert(seq!['.', '.'][1] == '.');
        assert(c.len() == b - a);
        assert(c[1] == p@[a + 1]);
    }
    true
}

/// Whether some component of `p` is a hidden name.
pub fn is_hidden_path(p: &[char]) -> (r: bool)
    ensures
        r == hidden_path(p@),
{
    let v = components(p);
    let mut n: usize = 0;
    while n < v.len()
        invariant
            n <= v.len(),
            forall|i: int| 0 <= i < v.len() ==> is_component(p@, (#[trigger] v[i]).0 as int, v[i].1 as int),
            forall|i: int| 0 <= i < n ==> !hidden_name(p@.subrange((#[trigger] v[i]).0 as int, v[i].1 as int)),
        decreases v.len() - n,
    {
        let (a, b) = v[n];
        assert(is_component(p@, v[n as int].0 as int, v[n as int].1 as int));
        if component_is_hidden(p, a, b) {
            return true;
        }
        n += 1;
    }
    proof {
        assert forall|a: int, b: int| is_component(p@, a, b) implies !hidden_name(
            p@.subrange(a, b),
        ) by {
            let i = choose|i: int| 0 <= i < v.len() && (#[trigger] v[i]).0 == a && v[i].1 == b;
            assert(!hidden_name(p@.subrange(v[i].0 as int, v[i].1 as int)));
        }
    }
    false
}

/// Whether the component `p[a..b]` is neither empty nor `.`.
pub fn component_is_naming(p: &[char], a: usize, b: usize) -> (r: bool)
    requires
        a <= b <= p.len(),
    ensures
        r == naming(p@.subrange(a as int, b as int)),
{
    let ghost c = p@.subrange(a as int, b as int);
    if b == a {
        return false;
    }
    if b - a == 1 && p[a] == '.' {
        assert(c =~= seq!['.']);
        return false;
    }
    proof {
        if c == seq!['.'] {
            assert(c.len() == 1);
            assert(c[0] == '.');
        }
    }
    true
}

/// A path has at most one file name.
pub proof fn lemma_file_name_unique(p: Seq<char>, a: int, b: int, c: int, d: int)
    requires
        is_file_name(p, a, b),
        is_file_name(p, c, d),
    ensures
        a == c,
        b == d,
{
    if b == d {
        lemma_component_by_end(p, a, b, c);
    }
}

/// Where the file name of `p` stands, if it has one.
pub fn find_file_name(p: &[char]) -> (r: Option<(usize, usize)>)
    ensures
        match r {
            Some((a, b)) => is_file_name(p@, a as int, b as int) && file_name(p@) == Some(
                p@.subrange(a as int, b as int),
            ),
            None => file_name(p@).is_none(),
        },
{
    let v = components(p);
    let mut n: usize = v.len();
    while n > 0
        invariant
            n <= v.len(),
            forall|i: int| 0 <= i < v.len() ==> is_component(p@, (#[trigger] v[i]).0 as int, v[i].1 as int),
            forall|i: int, j: int| 0 <= i < j < v.len() ==> (#[trigger] v[i]).1 < (#[trigger] v[j]).0,
            forall|a: int, b: int| #[trigger]
                is_component(p@, a, b) ==> exists|i: int|
                    0 <= i < v.len() && (#[trigger] v[i]).0 == a && v[i].1 == b,
            forall|i: int| n <= i < v.len() ==> !naming(p@.subrange((#[trigger] v[i]).0 as int, v[i].1 as int)),
        decreases n,
    {
        n -= 1;
        let (a, b) = v[n];
        assert(is_component(p@, v[n as int].0 as int, v[n as int].1 as int));
        if component_is_naming(p, a, b) {
            proof {
                assert forall|c: int, d: int| is_component(p@, c, d) && d > b implies !naming(
                    p@.subrange(c, d),
                ) by {
                    let i = choose|i: int|
                        0 <= i < v.len() && (#[trigger] v[i]).0 == c && v[i].1 == d;
                    if i <= n {
                        if i < n {
                            assert(v[i].1 < v[n as int].0);
                        }
                    }
                }
                assert(is_last_naming(p@, a as int, b as int));
            }
            if b - a == 2 && p[a] == '.' && p[a + 1] == '.' {
                proof {
                    let c = p@.subrange(a as int, b as int);
                    assert(c =~= seq!['.', '.']);
                    if has_file_name(p@) {
                        let (x, y) = choose|x: int, y: int| is_file_name(p@, x, y);
                        if y == b {
                            lemma_component_by_end(p@, x, y, a as int);
                        }
                    }
                }
                return None;
            }
            proof {
                let c = p@.subrange(a as int, b as int);
                if c == seq!['.', '.'] {
                    assert(c.len() == 2);
                    assert(c[0] == '.');
                    assert(c[1] == '.');
                }
                assert(is_file_name(p@, a as int, b as int));
                let (x, y) = choose|x: int, y: int| is_file_name(p@, x, y);
                lemma_file_name_unique(p@, a as int, b as int, x, y);
            }
            return Some((a, b));
        }
    }
    proof {
        if has_file_name(p@) {
            let (x, y) = choose|x: int, y: int| is_file_name(p@, x, y);
            let i = choose|i: int| 0 <= i < v.len() && (#[trigger] v[i]).0 == x && v[i].1 == y;
            assert(!naming(p@.subrange(v[i].0 as int, v[i].1 as int)));
        }
    }
    None
}

/// Where the dot before the extension of the file name `p[a..b]` stands, if
/// the name has an extension.
pub fn find_extension_dot(p: &[char], a: usize, b: usize) -> (r: Option<usize>)
    requires
        a <= b <= p.len(),
    ensures
        match r {
            Some(i) => a < i < b && is_extension_dot(p@.subrange(a as int, b as int), i - a)
                && name_extension(p@.subrange(a as int, b as int)) == Some(
                p@.subrange(i + 1, b as int),
            ),
            None => name_extension(p@.subrange(a as int, b as int)).is_none(),
        },
{
    let ghost name = p@.subrange(a as int, b as int);
    let mut i: usize = b;
    while i > a
        invariant
            a <= i <= b <= p.len(),
            name == p@.subrange(a as int, b as int),
            forall|k: int| i - a <= k < name.len() ==> name[k] != '.',
        decreases i,
    {
        i -= 1;
        assert(name[i - a] == p@[i as int]);
        if p[i] == '.' {
            assert(is_last_dot(name, i - a));
            proof {
                if has_extension(name) {
                    let j = choose|j: int| is_extension_dot(name, j);
                    assert(j == i - a);
                }
            }
            if i == a {
                return None;
            }
            proof {
                assert(is_extension_dot(name, i - a));
                assert(name.subrange(i - a + 1, name.len() as int) =~= p@.subrange(
                    i + 1,
                    b as int,
                ));
            }
            return Some(i);
        }
    }
    proof {
        if has_extension(name) {
            let j = choose|j: int| is_extension_dot(name, j);
            assert(name[j] != '.');
        }
    }
    None
}

/// The extension of `path` in lower case: what follows the last dot of its
/// file name, unless the name has no dot or only a leading one.
pub fn get_file_extension(path: &str) -> (r: Option<String>)
    ensures
        r.deep_view() == extension(path@),
{
    let p = chars_of(path);
    match find_file_name(p.as_slice()) {
        None => None,
        Some((a, b)) => match find_extension_dot(p.as_slice(), a, b) {
            None => None,
            Some(i) => {
                let raw = path.substring_char(i + 1, b);
                Some(to_lowercase(raw))
            },
        },
    }
}

} // verus!
