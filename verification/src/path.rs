//! The path sandbox: how a stored path is resolved against the base directory,
//! and when the result counts as lying inside it.
//!
//! Paths are sequences of characters in which `/` separates the segments. A
//! path is judged by its text alone: no link is followed and no file is
//! looked at.

use crate::error::Error;
use crate::text::{chars_of, string_of};
use vstd::prelude::*;

verus! {

/// A path is absolute when it begins at the root.
pub open spec fn is_absolute(p: Seq<char>) -> bool {
    p.len() > 0 && p[0] == '/'
}

/// Whether a separator has to be put behind `base` before a segment follows.
pub open spec fn needs_separator(base: Seq<char>) -> bool {
    base.len() > 0 && base.last() != '/'
}

/// `p` adjoined to `base`: an absolute `p` stands for itself, a relative one
/// follows `base`, after a separator where `base` does not end in one.
pub open spec fn joined(base: Seq<char>, p: Seq<char>) -> Seq<char> {
    if is_absolute(p) {
        p
    } else if needs_separator(base) {
        base.push('/') + p
    } else {
        base + p
    }
}

/// Whether the segment of `p` that begins at `i` is `..`.
pub open spec fn traversal_at(p: Seq<char>, i: int) -> bool {
    &&& 0 <= i
    &&& i + 2 <= p.len()
    &&& p[i] == '.'
    &&& p[i + 1] == '.'
    &&& (i == 0 || p[i - 1] == '/')
    &&& (i + 2 == p.len() || p[i + 2] == '/')
}

/// Whether some segment of `p` is `..`.
pub open spec fn has_traversal(p: Seq<char>) -> bool {
    exists|i: int| traversal_at(p, i)
}

/// Whether what follows `base` in `path` begins a new segment, so that
/// `base` is a prefix of `path` segment by segment and not only letter by
/// letter.
pub open spec fn at_boundary(base: Seq<char>, path: Seq<char>) -> bool {
    path.len() == base.len() || !needs_separator(base) || path[base.len() as int] == '/'
}

/// The containment rule of the sandbox: `path` begins with `base`, continues
/// at a segment boundary, and never climbs with a `..` segment after that.
pub open spec fn contained(base: Seq<char>, path: Seq<char>) -> bool {
    &&& base.is_prefix_of(path)
    &&& at_boundary(base, path)
    &&& !has_traversal(path.skip(base.len() as int))
}

/// A plain name is one segment that names an entry of a directory: it is not
/// empty, holds no separator, and is neither `.` nor `..`.
pub open spec fn is_plain_name(n: Seq<char>) -> bool {
    &&& n.len() > 0
    &&& forall|i: int| 0 <= i < n.len() ==> n[i] != '/'
    &&& n != seq!['.']
    &&& n != seq!['.', '.']
}

/// Where the segment that ends just before `end` begins.
pub open spec fn segment_start(p: Seq<char>, end: int) -> int
    decreases end,
{
    if end <= 0 {
        0
    } else if p[end - 1] == '/' {
        end
    } else {
        segment_start(p, end - 1)
    }
}

/// The file name within the first `end` characters of `p`: its last segment,
/// where separators and `.` segments at the end are passed over. There is
/// none where nothing is left or where that segment is `..`.
pub open spec fn base_name_within(p: Seq<char>, end: int) -> Option<Seq<char>>
    decreases end,
{
    if end <= 0 {
        None
    } else if p[end - 1] == '/' {
        base_name_within(p, end - 1)
    } else {
        let segment = p.subrange(segment_start(p, end), end);
        if segment == seq!['.'] {
            base_name_within(p, end - 1)
        } else if segment == seq!['.', '.'] {
            None
        } else {
            Some(segment)
        }
    }
}

/// The file name of a path.
pub open spec fn base_name(p: Seq<char>) -> Option<Seq<char>> {
    base_name_within(p, p.len() as int)
}

/// The segment that ends at `end` begins at or before `end`, directly after
/// a separator or at the start of the path, and holds no separator.
pub proof fn lemma_segment_start(p: Seq<char>, end: int)
    requires
        0 <= end <= p.len(),
    ensures
        0 <= segment_start(p, end) <= end,
        segment_start(p, end) == 0 || p[segment_start(p, end) - 1] == '/',
        forall|i: int| segment_start(p, end) <= i < end ==> p[i] != '/',
        end > 0 && p[end - 1] != '/' ==> segment_start(p, end) < end,
    decreases end,
{
    if end > 0 && p[end - 1] != '/' {
        lemma_segment_start(p, end - 1);
    }
}

/// A file name is always a plain name.
pub proof fn lemma_base_name_is_plain(p: Seq<char>, end: int)
    requires
        0 <= end <= p.len(),
    ensures
        base_name_within(p, end) matches Some(n) ==> is_plain_name(n),
    decreases end,
{
    if end > 0 {
        if p[end - 1] == '/' {
            lemma_base_name_is_plain(p, end - 1);
        } else {
            lemma_segment_start(p, end);
            let segment = p.subrange(segment_start(p, end), end);
            if segment == seq!['.'] {
                lemma_base_name_is_plain(p, end - 1);
            }
        }
    }
}

/// A plain name is relative and has no traversal segment.
pub proof fn lemma_plain_name_is_harmless(n: Seq<char>)
    requires
        is_plain_name(n),
    ensures
        !is_absolute(n),
        !has_traversal(n),
{
    assert forall|i: int| !traversal_at(n, i) by {
        if traversal_at(n, i) {
            if i > 0 {
                assert(n[i - 1] != '/');
            } else if n.len() > 2 {
                assert(n[2] != '/');
            } else {
                assert(n =~= seq!['.', '.']);
            }
        }
    }
}

/// A traversal segment of a concatenation whose second part begins at a
/// segment boundary lies in one of the two parts.
pub proof fn lemma_traversal_of_parts(a: Seq<char>, b: Seq<char>)
    requires
        a.len() == 0 || a.last() == '/' || b.len() == 0 || b[0] == '/',
    ensures
        has_traversal(a + b) ==> has_traversal(a) || has_traversal(b),
{
    let whole = a + b;
    if has_traversal(whole) {
        let i = choose|i: int| traversal_at(whole, i);
        if i + 2 <= a.len() {
            assert(whole[i] == a[i] && whole[i + 1] == a[i + 1]);
            if i > 0 {
                assert(whole[i - 1] == a[i - 1]);
            }
            if i + 2 < a.len() {
                assert(whole[i + 2] == a[i + 2]);
            } else if i + 2 < whole.len() {
                assert(whole[i + 2] == b[0]);
                assert(a.last() == whole[i + 1]);
            }
            if i + 2 == a.len() && b.len() > 0 && b[0] != '/' {
                assert(a.last() == '.');
                assert(false);
            }
            assert(traversal_at(a, i));
        } else if i >= a.len() {
            let j = i - a.len();
            assert(whole[i] == b[j] && whole[i + 1] == b[j + 1]);
            if j > 0 {
                assert(whole[i - 1] == b[j - 1]);
            }
            if j + 2 < b.len() {
                assert(whole[i + 2] == b[j + 2]);
            }
            if j == 0 && i > 0 {
                assert(whole[i - 1] == a.last());
                assert(b[0] == '.');
            }
            assert(traversal_at(b, j));
        } else {
            // The segment would straddle the seam: its first character is
            // the last of `a`, its second the first of `b`.
            assert(whole[i] == a.last());
            assert(whole[i + 1] == b[0]);
            assert(false);
        }
    }
}

/// A relative path without a traversal segment resolves to a path inside
/// the base directory, whatever the base directory is: the result is the
/// base, a separator where the base does not end in one, and the path as it
/// was given, so that nothing it names lies outside the base.
pub proof fn law_relative_paths_stay_inside(base: Seq<char>, p: Seq<char>)
    requires
        !is_absolute(p),
        !has_traversal(p),
    ensures
        base.is_prefix_of(joined(base, p)),
        contained(base, joined(base, p)),
        joined(base, p).skip(base.len() as int) == if needs_separator(base) {
            seq!['/'] + p
        } else {
            p
        },
{
    let path = joined(base, p);
    let rest = path.skip(base.len() as int);
    assert(path.subrange(0, base.len() as int) =~= base);
    if needs_separator(base) {
        assert(rest =~= seq!['/'] + p);
        lemma_traversal_of_parts(seq!['/'], p);
        assert(!has_traversal(seq!['/'])) by {
            assert forall|i: int| !traversal_at(seq!['/'], i) by {}
        }
    } else {
        assert(rest =~= p);
    }
}

/// A path with a traversal segment of its own is refused, whether it is
/// relative or absolute: climbing out of the base directory is never
/// accepted on the strength of the prefix alone.
pub proof fn law_traversal_is_refused(base: Seq<char>, p: Seq<char>)
    requires
        has_traversal(p),
        is_absolute(p) ==> !has_traversal(base),
    ensures
        !contained(base, joined(base, p)),
{
    let path = joined(base, p);
    if contained(base, path) {
        let rest = path.skip(base.len() as int);
        let i = choose|i: int| traversal_at(p, i);
        if is_absolute(p) {
            // The segment lies in `p`, which is the whole path; the base is
            // its prefix and has no such segment, so it lies in the rest or
            // across the boundary, where a separator stands.
            assert(path == p);
            if i >= base.len() {
                assert(rest[i - base.len()] == p[i]);
                assert(rest[i - base.len() + 1] == p[i + 1]);
                if i + 2 < p.len() {
                    assert(rest[i - base.len() + 2] == p[i + 2]);
                }
                if i > base.len() {
                    assert(rest[i - base.len() - 1] == p[i - 1]);
                }
                assert(traversal_at(rest, i - base.len()));
            } else {
                assert(base == p.subrange(0, base.len() as int));
                assert(base[i] == p[i]);
                if i > 0 {
                    assert(base[i - 1] == p[i - 1]);
                }
                if i + 2 <= base.len() {
                    assert(base[i + 1] == p[i + 1]);
                    if i + 2 < base.len() {
                        assert(base[i + 2] == p[i + 2]);
                    } else {
                        assert(base.last() == '.');
                        assert(p.len() == base.len() || p[base.len() as int] == '/');
                    }
                    assert(traversal_at(base, i));
                } else {
                    assert(base.last() == '.');
                    assert(p[base.len() as int] == '.');
                }
                assert(false);
            }
        } else if needs_separator(base) {
            assert(rest =~= seq!['/'] + p);
            assert(rest[i + 1] == p[i]);
            assert(rest[i + 2] == p[i + 1]);
            if i > 0 {
                assert(rest[i] == p[i - 1]);
            }
            if i + 2 < p.len() {
                assert(rest[i + 3] == p[i + 2]);
            }
            assert(traversal_at(rest, i + 1));
        } else {
            assert(rest =~= p);
        }
    }
}

/// Every directory lies inside itself.
pub proof fn lemma_contains_itself(base: Seq<char>)
    ensures
        contained(base, base),
{
    assert(base.subrange(0, base.len() as int) =~= base);
    assert(base.skip(base.len() as int) =~= Seq::<char>::empty());
    assert forall|i: int| !traversal_at(Seq::<char>::empty(), i) by {}
}

/// A plain name adjoined to a directory inside the base directory is inside
/// it too.
pub proof fn lemma_plain_name_stays_inside(base: Seq<char>, dir: Seq<char>, name: Seq<char>)
    requires
        contained(base, dir),
        is_plain_name(name),
    ensures
        contained(base, joined(dir, name)),
        joined(dir, name) == if needs_separator(dir) {
            dir.push('/') + name
        } else {
            dir + name
        },
{
    lemma_plain_name_is_harmless(name);
    let path = joined(dir, name);
    let b = base.len() as int;
    assert(base =~= dir.subrange(0, b));
    assert(path.subrange(0, b) =~= base);
    let dir_rest = dir.skip(b);
    let rest = path.skip(b);
    if needs_separator(dir) {
        assert(rest =~= dir_rest + (seq!['/'] + name));
        lemma_traversal_of_parts(seq!['/'], name);
        assert(!has_traversal(seq!['/'])) by {
            assert forall|i: int| !traversal_at(seq!['/'], i) by {}
        }
        lemma_traversal_of_parts(dir_rest, seq!['/'] + name);
        if dir.len() == b {
            assert(path[b] == '/');
        } else {
            assert(path[b] == dir[b]);
        }
    } else {
        assert(rest =~= dir_rest + name);
        if dir_rest.len() > 0 {
            assert(dir_rest.last() == dir.last());
            assert(path[b] == dir[b]);
        } else {
            assert(dir.len() == b);
            assert(dir =~= base);
        }
        lemma_traversal_of_parts(dir_rest, name);
    }
}

/// Whether the path is absolute.
pub fn is_absolute_path(p: &str) -> (r: bool)
    ensures
        r == is_absolute(p@),
{
    let n = p.unicode_len();
    n > 0 && p.get_char(0) == '/'
}

/// Adjoins `p` to `base`, as `joined` says.
pub fn join(base: &str, p: &str) -> (r: String)
    ensures
        r@ == joined(base@, p@),
{
    let b = chars_of(base);
    let q = chars_of(p);
    let r = join_chars(&b, &q);
    string_of(&r, 0, r.len())
}

/// `join` on sequences of characters.
pub fn join_chars(base: &Vec<char>, p: &Vec<char>) -> (r: Vec<char>)
    ensures
        r@ == joined(base@, p@),
{
    let mut r: Vec<char> = Vec::new();
    if !(p.len() > 0 && p[0] == '/') {
        let mut i: usize = 0;
        while i < base.len()
            invariant
                i <= base.len(),
                r@ == base@.subrange(0, i as int),
            decreases base.len() - i,
        {
            r.push(base[i]);
            assert(r@ =~= base@.subrange(0, i + 1));
            i = i + 1;
        }
        assert(r@ =~= base@);
        if base.len() > 0 && base[base.len() - 1] != '/' {
            r.push('/');
        }
    }
    let ghost head = r@;
    let mut j: usize = 0;
    while j < p.len()
        invariant
            j <= p.len(),
            r@ == head + p@.subrange(0, j as int),
        decreases p.len() - j,
    {
        r.push(p[j]);
        assert(r@ =~= head + p@.subrange(0, j + 1));
        j = j + 1;
    }
    assert(r@ =~= head + p@);
    assert(Seq::<char>::empty() + p@ =~= p@);
    r
}

/// Whether some segment of `p[from..]` is `..`.
pub fn has_traversal_from(p: &Vec<char>, from: usize) -> (r: bool)
    requires
        from <= p.len(),
    ensures
        r == has_traversal(p@.skip(from as int)),
{
    let ghost rest = p@.skip(from as int);
    let n = p.len();
    let mut i: usize = from;
    while i < n
        invariant
            from <= i <= n,
            n == p.len(),
            rest == p@.skip(from as int),
            forall|k: int| 0 <= k < i - from ==> !traversal_at(rest, k),
        decreases n - i,
    {
        if p[i] == '.' && n - i >= 2 && p[i + 1] == '.' && (i == from || p[i - 1] == '/') && (n - i
            == 2 || p[i + 2] == '/') {
            assert(traversal_at(rest, i - from));
            return true;
        }
        assert(!traversal_at(rest, i - from));
        i = i + 1;
    }
    false
}

/// Whether `path` lies inside `base` by the containment rule.
pub fn is_contained_chars(base: &Vec<char>, path: &Vec<char>) -> (r: bool)
    ensures
        r == contained(base@, path@),
{
    let b = base.len();
    if path.len() < b {
        return false;
    }
    let mut i: usize = 0;
    while i < b
        invariant
            i <= b,
            b == base.len(),
            b <= path.len(),
            forall|k: int| 0 <= k < i ==> base[k] == path[k],
        decreases b - i,
    {
        if base[i] != path[i] {
            assert(path@.subrange(0, b as int)[i as int] != base@[i as int]);
            return false;
        }
        i = i + 1;
    }
    assert(path@.subrange(0, b as int) =~= base@);
    if !(path.len() == b || b == 0 || base[b - 1] == '/' || path[b] == '/') {
        return false;
    }
    !has_traversal_from(path, b)
}

/// Whether `path` lies inside `base` by the containment rule.
pub fn is_contained(base: &str, path: &str) -> (r: bool)
    ensures
        r == contained(base@, path@),
{
    let b = chars_of(base);
    let p = chars_of(path);
    is_contained_chars(&b, &p)
}

/// The path that `candidate` stands for: itself where it is absolute, else
/// adjoined to `base`. Nothing is checked.
pub fn absolute_path_from_relative(base: &str, candidate: &str) -> (r: String)
    ensures
        r@ == joined(base@, candidate@),
{
    join(base, candidate)
}

/// Resolves `candidate` against `base` and holds the result to the
/// containment rule. A path outside the base directory is refused, so that
/// no file operation is ever handed one.
pub fn resolve(base: &str, candidate: &str) -> (r: Result<String, Error>)
    ensures
        match r {
            Ok(path) => path@ == joined(base@, candidate@) && contained(base@, path@),
            Err(e) => e == Error::PathNotAllowed && !contained(base@, joined(base@, candidate@)),
        },
{
    let b = chars_of(base);
    let c = chars_of(candidate);
    let path = join_chars(&b, &c);
    if is_contained_chars(&b, &path) {
        Ok(string_of(&path, 0, path.len()))
    } else {
        Err(Error::PathNotAllowed)
    }
}

/// The file name of a path, as `base_name` says.
pub fn file_name(p: &str) -> (r: Option<String>)
    ensures
        match r {
            Some(n) => base_name(p@) == Some(n@),
            None => base_name(p@) is None,
        },
{
    let v = chars_of(p);
    let mut end: usize = v.len();
    while end > 0
        invariant
            end <= v.len(),
            v@ == p@,
            base_name(p@) == base_name_within(v@, end as int),
        decreases end,
    {
        if v[end - 1] == '/' {
            end = end - 1;
        } else {
            let mut start: usize = end - 1;
            while start > 0 && v[start - 1] != '/'
                invariant
                    start < end <= v.len(),
                    v[end - 1] != '/',
                    segment_start(v@, end as int) == segment_start(v@, start as int + 1),
                    forall|k: int| start <= k < end ==> v[k] != '/',
                decreases start,
            {
                start = start - 1;
                assert(segment_start(v@, start as int + 2) == segment_start(v@, start as int + 1));
            }
            assert(segment_start(v@, start as int + 1) == start) by {
                assert(segment_start(v@, start as int + 1) == segment_start(v@, start as int));
            }
            let ghost segment = v@.subrange(start as int, end as int);
            if end - start == 1 && v[start] == '.' {
                assert(segment =~= seq!['.']);
                end = end - 1;
            } else if end - start == 2 && v[start] == '.' && v[start + 1] == '.' {
                assert(segment =~= seq!['.', '.']);
                assert(segment != seq!['.']) by {
                    assert(segment.len() == 2);
                }
                return None;
            } else {
                assert(segment != seq!['.']) by {
                    if segment == seq!['.'] {
                        assert(segment.len() == 1);
                        assert(segment[0] == seq!['.'][0]);
                    }
                }
                assert(segment != seq!['.', '.']) by {
                    if segment == seq!['.', '.'] {
                        assert(segment.len() == 2);
                        assert(segment[0] == seq!['.', '.'][0]);
                        assert(segment[1] == seq!['.', '.'][1]);
                    }
                }
                return Some(string_of(&v, start, end));
            }
        }
    }
    None
}

} // verus!
