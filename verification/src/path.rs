//! Paths as text, with `/` between their components: the stem of a file name, joining a
//! relative path to a directory, and whether a relative path stays below the directory it is
//! joined to.

use vstd::prelude::*;
use vstd::slice::slice_subrange;
use crate::text::{from_chars, push_all, to_chars};

verus! {

/// The position after the last character of `s` that is not a `/`, looking before `end`.
pub open spec fn trimmed_end(s: Seq<char>, end: int) -> int
    decreases end,
{
    if 0 < end <= s.len() && s[end - 1] == '/' {
        trimmed_end(s, end - 1)
    } else {
        end
    }
}

/// Where the component that ends at `end` begins: the position after the last `/` before `end`.
pub open spec fn component_start(s: Seq<char>, end: int) -> int
    decreases end,
{
    if 0 < end <= s.len() && s[end - 1] != '/' {
        component_start(s, end - 1)
    } else {
        end
    }
}

/// The position of the last `.` before `end`, or `-1` if there is none.
pub open spec fn last_dot(s: Seq<char>, end: int) -> int
    decreases end,
{
    if 0 < end <= s.len() {
        if s[end - 1] == '.' {
            end - 1
        } else {
            last_dot(s, end - 1)
        }
    } else {
        -1
    }
}

/// The last component of `path`, slashes at the end left aside.
pub open spec fn spec_file_name(path: Seq<char>) -> Seq<char> {
    let end = trimmed_end(path, path.len() as int);
    path.subrange(component_start(path, end), end)
}

/// A file name without its extension: what stands before the last `.`, or the whole name where
/// there is no `.` or only one at the very beginning.
pub open spec fn spec_stem(name: Seq<char>) -> Seq<char> {
    let dot = last_dot(name, name.len() as int);
    if dot <= 0 {
        name
    } else {
        name.subrange(0, dot)
    }
}

/// The stem of the file that `path` names. A path that names no file has none: the empty path,
/// a path of slashes only, and one that ends in the component `.` or `..`.
pub open spec fn spec_file_stem(path: Seq<char>) -> Option<Seq<char>> {
    let name = spec_file_name(path);
    if name.len() == 0 || name == seq!['.'] || name == seq!['.', '.'] {
        None
    } else {
        Some(spec_stem(name))
    }
}

/// `rel` below the directory `base`.
pub open spec fn spec_join(base: Seq<char>, rel: Seq<char>) -> Seq<char> {
    if base.len() == 0 {
        rel
    } else if base.last() == '/' {
        base + rel
    } else {
        base + seq!['/'] + rel
    }
}

/// A component `..` begins at position `i` of `s`.
pub open spec fn parent_step_at(s: Seq<char>, i: int) -> bool {
    &&& 0 <= i
    &&& i + 2 <= s.len()
    &&& i == 0 || s[i - 1] == '/'
    &&& s[i] == '.'
    &&& s[i + 1] == '.'
    &&& i + 2 == s.len() || s[i + 2] == '/'
}

/// Joined to a directory, `rel` names something in or below that directory: it does not begin
/// at the root and no component of it steps up to a parent.
pub open spec fn spec_stays_inside(rel: Seq<char>) -> bool {
    &&& rel.len() > 0 ==> rel[0] != '/'
    &&& forall|i: int| !parent_step_at(rel, i)
}

/// The directory that holds `path`: what stands before its last `/`, if it has one.
pub open spec fn spec_parent(path: Seq<char>) -> Option<Seq<char>> {
    let start = component_start(path, path.len() as int);
    if start == 0 {
        None
    } else {
        Some(path.subrange(0, start - 1))
    }
}

/// The stem of the file that `path` names, if it names one.
pub fn file_stem(path: &str) -> (stem: Option<String>)
    ensures
        match stem {
            Some(s) => spec_file_stem(path@) == Some(s@),
            None => spec_file_stem(path@) is None,
        },
{
    let chars = to_chars(path);
    let mut end: usize = chars.len();
    while end > 0 && chars[end - 1] == '/'
        invariant
            end <= chars.len(),
            trimmed_end(chars@, chars@.len() as int) == trimmed_end(chars@, end as int),
        decreases end,
    {
        end -= 1;
    }
    let mut start: usize = end;
    while start > 0 && chars[start - 1] != '/'
        invariant
            start <= end <= chars.len(),
            component_start(chars@, end as int) == component_start(chars@, start as int),
        decreases start,
    {
        start -= 1;
    }
    let name = slice_subrange(chars.as_slice(), start, end);
    let n = name.len();
    if n == 0 || (n == 1 && name[0] == '.') || (n == 2 && name[0] == '.' && name[1] == '.') {
        proof {
            if n == 1 {
                assert(name@ =~= seq!['.']);
            }
            if n == 2 {
                assert(name@ =~= seq!['.', '.']);
            }
        }
        return None;
    }
    assert(name@ != seq!['.'] && name@ != seq!['.', '.']) by {
        if name@ == seq!['.'] {
            assert(name@[0] == '.');
        }
        if name@ == seq!['.', '.'] {
            assert(name@[0] == '.' && name@[1] == '.');
        }
    }
    let mut dot: usize = n;
    while dot > 0 && name[dot - 1] != '.'
        invariant
            dot <= n,
            n == name@.len(),
            last_dot(name@, n as int) == last_dot(name@, dot as int),
        decreases dot,
    {
        dot -= 1;
    }
    // `dot` is one past the last `.`, or zero where the name holds none.
    let kept = if dot <= 1 {
        name
    } else {
        slice_subrange(name, 0, dot - 1)
    };
    assert(kept@ =~= spec_stem(name@));
    let mut out: Vec<char> = Vec::new();
    push_all(&mut out, kept);
    Some(from_chars(&out))
}

/// `rel` below the directory `base`.
pub fn join(base: &str, rel: &str) -> (path: String)
    ensures
        path@ == spec_join(base@, rel@),
{
    let mut out = to_chars(base);
    let n = out.len();
    if n > 0 && out[n - 1] != '/' {
        out.push('/');
    }
    let more = to_chars(rel);
    push_all(&mut out, more.as_slice());
    assert(out@ =~= spec_join(base@, rel@));
    from_chars(&out)
}

/// Whether `rel`, joined to a directory, stays in or below that directory.
pub fn stays_inside(rel: &str) -> (inside: bool)
    ensures
        inside == spec_stays_inside(rel@),
{
    let chars = to_chars(rel);
    let n = chars.len();
    if n > 0 && chars[0] == '/' {
        return false;
    }
    let mut i: usize = 0;
    while i < n
        invariant
            i <= n,
            n == chars@.len(),
            chars@ == rel@,
            forall|k: int| k < i ==> !parent_step_at(chars@, k),
        decreases n - i,
    {
        if (i == 0 || chars[i - 1] == '/') && n - i >= 2 && chars[i] == '.' && chars[i + 1] == '.'
            && (i + 2 == n || chars[i + 2] == '/') {
            assert(parent_step_at(chars@, i as int));
            return false;
        }
        i += 1;
    }
    true
}

/// The directory that holds `path`, if `path` has more than one component.
pub fn parent(path: &str) -> (dir: Option<String>)
    ensures
        match dir {
            Some(d) => spec_parent(path@) == Some(d@),
            None => spec_parent(path@) is None,
        },
{
    let chars = to_chars(path);
    let mut start: usize = chars.len();
    while start > 0 && chars[start - 1] != '/'
        invariant
            start <= chars.len(),
            component_start(chars@, chars@.len() as int) == component_start(
                chars@,
                start as int,
            ),
        decreases start,
    {
        start -= 1;
    }
    if start == 0 {
        return None;
    }
    let mut out: Vec<char> = Vec::new();
    push_all(&mut out, slice_subrange(chars.as_slice(), 0, start - 1));
    Some(from_chars(&out))
}

} // verus!
