//! File-system paths as text: `/`-separated components, as on the systems
//! that run launchd.

use vstd::prelude::*;
use crate::text::{chars_of, occurs_at_exec, substring};

verus! {

/// The index of the last `c` in `s`, or `-1` where there is none.
pub open spec fn last_index_of(s: Seq<char>, c: char) -> int
    decreases s.len(),
{
    if s.len() == 0 {
        -1
    } else if s.last() == c {
        s.len() - 1
    } else {
        last_index_of(s.drop_last(), c)
    }
}

pub proof fn lemma_last_index_of(s: Seq<char>, c: char)
    ensures
        -1 <= last_index_of(s, c) < s.len(),
        last_index_of(s, c) >= 0 ==> s[last_index_of(s, c)] == c,
        forall|j: int| last_index_of(s, c) < j < s.len() ==> s[j] != c,
    decreases s.len(),
{
    if s.len() > 0 && s.last() != c {
        lemma_last_index_of(s.drop_last(), c);
        assert forall|j: int| last_index_of(s, c) < j < s.len() implies s[j] != c by {
            if j < s.len() - 1 {
                assert(s.drop_last()[j] == s[j]);
            }
        }
    }
}

/// The last component of `p` that names something: components are the
/// pieces between `/`; empty ones and `.` are passed over, and `..` names
/// nothing.
pub open spec fn file_name(p: Seq<char>) -> Option<Seq<char>>
    decreases p.len(),
{
    let k = last_index_of(p, '/');
    let last = p.skip(k + 1);
    if last.len() == 0 || last == seq!['.'] {
        if k < 0 {
            None
        } else {
            proof {
                lemma_last_index_of(p, '/');
            }
            file_name(p.take(k))
        }
    } else if last == seq!['.', '.'] {
        None
    } else {
        Some(last)
    }
}

/// `name` without its extension: the part before the last `.`, unless that
/// part is empty or there is no `.`.
pub open spec fn strip_extension(name: Seq<char>) -> Seq<char> {
    let k = last_index_of(name, '.');
    if k <= 0 {
        name
    } else {
        name.take(k)
    }
}

/// The file name of `p` without its extension.
pub open spec fn file_stem(p: Seq<char>) -> Option<Seq<char>> {
    match file_name(p) {
        Some(name) => Some(strip_extension(name)),
        None => None,
    }
}

/// The directory that `p` lies in: what stands before its last
/// separator, the root for a path directly below it, and nothing for a
/// path without a separator.
pub open spec fn parent(p: Seq<char>) -> Seq<char> {
    let k = last_index_of(p, '/');
    if k < 0 {
        Seq::empty()
    } else if k == 0 {
        seq!['/']
    } else {
        p.take(k)
    }
}

/// `base` extended by `rel`. An absolute `rel` stands for itself.
pub open spec fn join(base: Seq<char>, rel: Seq<char>) -> Seq<char> {
    if rel.len() > 0 && rel[0] == '/' {
        rel
    } else if base.len() == 0 || base.last() == '/' {
        base + rel
    } else {
        base + seq!['/'] + rel
    }
}

/// `s` without the separators at its start.
pub open spec fn skip_separators(s: Seq<char>) -> Seq<char>
    decreases s.len(),
{
    if s.len() > 0 && s[0] == '/' {
        skip_separators(s.skip(1))
    } else {
        s
    }
}

/// What is left of `path` below `base`: `path` without `base` and the
/// separators after it. `base` must end where a component of `path` ends.
/// An empty `base` takes nothing away.
pub open spec fn strip_prefix(path: Seq<char>, base: Seq<char>) -> Option<Seq<char>> {
    if !base.is_prefix_of(path) {
        None
    } else if base.len() == 0 {
        Some(path)
    } else if path.len() == base.len() {
        Some(Seq::empty())
    } else if base.last() == '/' || path[base.len() as int] == '/' {
        Some(skip_separators(path.skip(base.len() as int)))
    } else {
        None
    }
}

/// `path` as it is shown: with `~` for the home directory where the path
/// lies in it.
pub open spec fn compressed(path: Seq<char>, home: Option<Seq<char>>) -> Seq<char> {
    match home {
        Some(h) => match strip_prefix(path, h) {
            Some(rest) => "~/"@ + rest,
            None => path,
        },
        None => path,
    }
}

/// Finds the last `c` in `v[lo..hi]`; the index is relative to `lo`.
fn last_index_in(v: &Vec<char>, lo: usize, hi: usize, c: char) -> (r: Option<usize>)
    requires
        lo <= hi <= v.len(),
    ensures
        match r {
            Some(k) => last_index_of(v@.subrange(lo as int, hi as int), c) == k,
            None => last_index_of(v@.subrange(lo as int, hi as int), c) == -1,
        },
{
    let ghost s = v@.subrange(lo as int, hi as int);
    let mut i: usize = hi;
    assert(s.take(hi - lo) =~= s);
    while i > lo
        invariant
            lo <= i <= hi <= v.len(),
            s == v@.subrange(lo as int, hi as int),
            last_index_of(s, c) == last_index_of(s.take(i - lo), c),
        decreases i,
    {
        i -= 1;
        if v[i] == c {
            return Some(i - lo);
        }
        assert(s.take(i + 1 - lo).drop_last() =~= s.take(i - lo));
    }
    None
}

/// The range of `v` that holds its file name.
fn file_name_range(v: &Vec<char>) -> (r: Option<(usize, usize)>)
    ensures
        match r {
            Some((lo, hi)) => lo <= hi <= v.len() && file_name(v@) == Some(
                v@.subrange(lo as int, hi as int),
            ),
            None => file_name(v@) is None,
        },
{
    let mut end: usize = v.len();
    assert(v@.take(end as int) =~= v@);
    loop
        invariant
            end <= v.len(),
            file_name(v@) == file_name(v@.take(end as int)),
        decreases end,
    {
        let ghost p = v@.take(end as int);
        let sep = last_index_in(v, 0, end, '/');
        proof {
            lemma_last_index_of(p, '/');
        }
        let start: usize = match sep {
            Some(k) => k + 1,
            None => 0,
        };
        let ghost last = p.skip(start as int);
        let n: usize = end - start;
        let dot = n == 1 && v[start] == '.';
        let dotdot = n == 2 && v[start] == '.' && v[start + 1] == '.';
        proof {
            if dot {
                assert(last =~= seq!['.']);
            } else {
                assert(last != seq!['.']) by {
                    if last == seq!['.'] {
                        assert(last[0] == '.');
                    }
                }
            }
            if dotdot {
                assert(last =~= seq!['.', '.']);
            }
        }
        if n == 0 || dot {
            match sep {
                Some(k) => {
                    assert(p.take(k as int) =~= v@.take(k as int));
                    end = k;
                },
                None => {
                    return None;
                },
            }
        } else if dotdot {
            return None;
        } else {
            return Some((start, end));
        }
    }
}

/// The file name of `path` without its extension, if `path` names a file.
pub fn file_stem_of(path: &str) -> (r: Option<String>)
    ensures
        r.deep_view() == file_stem(path@),
{
    let v = chars_of(path);
    match file_name_range(&v) {
        Some((lo, hi)) => {
            let ghost name = v@.subrange(lo as int, hi as int);
            match last_index_in(&v, lo, hi, '.') {
                Some(k) => {
                    if k == 0 {
                        Some(substring(path, lo, hi))
                    } else {
                        proof {
                            lemma_last_index_of(name, '.');
                        }
                        Some(substring(path, lo, lo + k))
                    }
                },
                None => Some(substring(path, lo, hi)),
            }
        },
        None => None,
    }
}

/// The directory that `path` lies in.
pub fn parent_of(path: &str) -> (r: String)
    ensures
        r@ == parent(path@),
{
    let v = chars_of(path);
    assert(v@.subrange(0, v.len() as int) =~= v@);
    match last_index_in(&v, 0, v.len(), '/') {
        Some(k) => {
            proof {
                lemma_last_index_of(v@, '/');
            }
            if k == 0 {
                proof {
                    reveal_strlit("/");
                }
                let r = String::from_str("/");
                r
            } else {
                substring(path, 0, k)
            }
        },
        None => String::new(),
    }
}

/// `base` extended by `rel`.
pub fn join_path(base: &str, rel: &str) -> (r: String)
    ensures
        r@ == join(base@, rel@),
{
    let w = chars_of(rel);
    if w.len() > 0 && w[0] == '/' {
        return String::from_str(rel);
    }
    let v = chars_of(base);
    let mut r = String::from_str(base);
    if v.len() > 0 && v[v.len() - 1] != '/' {
        proof {
            reveal_strlit("/");
        }
        r.append("/");
    }
    r.append(rel);
    r
}

/// What is left of `path` below `base`.
pub fn strip_prefix_of(path: &str, base: &str) -> (r: Option<String>)
    ensures
        r.deep_view() == strip_prefix(path@, base@),
{
    let p = chars_of(path);
    let b = chars_of(base);
    if b.len() > p.len() {
        return None;
    }
    if !occurs_at_exec(&p, &b, 0) {
        return None;
    }
    if b.len() == 0 {
        Some(String::from_str(path))
    } else if p.len() == b.len() {
        Some(String::new())
    } else if b[b.len() - 1] == '/' || p[b.len()] == '/' {
        let mut i: usize = b.len();
        while i < p.len() && p[i] == '/'
            invariant
                b.len() <= i <= p.len(),
                p@ == path@,
                skip_separators(path@.skip(b.len() as int)) == skip_separators(
                    path@.skip(i as int),
                ),
            decreases p.len() - i,
        {
            assert(path@.skip(i as int).skip(1) =~= path@.skip(i + 1));
            i += 1;
        }
        assert(path@.skip(i as int) =~= path@.subrange(i as int, p.len() as int));
        Some(substring(path, i, p.len()))
    } else {
        None
    }
}

/// `path` as it is shown, for a user whose home directory is `home`.
pub fn compress_path(path: &str, home: Option<&str>) -> (r: String)
    ensures
        r@ == compressed(
            path@,
            match home {
                Some(h) => Some(h@),
                None => None,
            },
        ),
{
    match home {
        Some(h) => match strip_prefix_of(path, h) {
            Some(rest) => {
                let mut r = String::from_str("~/");
                r.append(rest.as_str());
                r
            },
            None => String::from_str(path),
        },
        None => String::from_str(path),
    }
}

} // verus!
