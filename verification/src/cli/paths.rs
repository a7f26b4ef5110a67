//! Output file names, with `/` as the path separator: a path with its file
//! extension replaced, and an output tree mirroring an input tree.

use vstd::prelude::*;
use crate::text::{chars_of, string_of_range};

verus! {

/// The path without trailing separators and trailing `/.` components.
pub open spec fn trimmed(p: Seq<char>) -> Seq<char>
    decreases p.len(),
{
    if p.len() > 0 && p.last() == '/' {
        trimmed(p.drop_last())
    } else if p.len() >= 2 && p.last() == '.' && p[p.len() - 2] == '/' {
        trimmed(p.drop_last())
    } else {
        p
    }
}

/// Where the last component of `t` starts: just after its last `/`.
pub open spec fn name_start(t: Seq<char>) -> int
    decreases t.len(),
{
    if t.len() == 0 { 0 } else if t.last() == '/' { t.len() as int } else { name_start(t.drop_last()) }
}

/// The position of the last `.` in `s`, or -1.
pub open spec fn last_dot(s: Seq<char>) -> int
    decreases s.len(),
{
    if s.len() == 0 { -1 } else if s.last() == '.' { s.len() - 1 } else { last_dot(s.drop_last()) }
}

/// The length of the stem of file name `name`: up to its last `.`, unless
/// that dot opens the name (a hidden file) or there is none.
pub open spec fn stem_len(name: Seq<char>) -> int {
    if last_dot(name) <= 0 { name.len() as int } else { last_dot(name) }
}

/// `p` with the extension of its file name set to `ext` (dropped where
/// `ext` is empty), as `Path::with_extension` does on Unix: trailing
/// separators go, and a path with no file name (empty, a root, `.` or
/// `..` last) stays as it is.
pub open spec fn with_ext(p: Seq<char>, ext: Seq<char>) -> Seq<char> {
    let t = trimmed(p);
    let s = name_start(t);
    let name = t.skip(s);
    if name.len() == 0 || name == seq!['.'] || name == seq!['.', '.'] {
        p
    } else {
        t.take(s + stem_len(name)) + if ext.len() == 0 { Seq::<char>::empty() } else { seq!['.'] + ext }
    }
}

/// The directory of the file at `p`, as `Path::parent` gives it on Unix:
/// the path before its last component, without trailing separators, a root
/// kept; `.` where that is empty or there is no last component.
pub open spec fn root_dir_of(p: Seq<char>) -> Seq<char> {
    let t = trimmed(p);
    let q = trimmed(t.take(name_start(t)));
    let parent = if q.len() == 0 && t.len() > 0 && t[0] == '/' { seq!['/'] } else { q };
    if parent.len() == 0 { seq!['.'] } else { parent }
}

/// `rel` under the directory `dir`, as `Path::join` does on Unix: an
/// absolute `rel` stands alone; otherwise a `/` goes between where `dir`
/// does not end with one.
pub open spec fn joined(dir: Seq<char>, rel: Seq<char>) -> Seq<char> {
    if rel.len() > 0 && rel[0] == '/' {
        rel
    } else if dir.len() == 0 || dir.last() == '/' {
        dir + rel
    } else {
        dir + seq!['/'] + rel
    }
}

fn trimmed_len(v: &Vec<char>) -> (e: usize)
    ensures
        e <= v@.len(),
        trimmed(v@) == v@.take(e as int),
{
    let mut e = v.len();
    assert(v@.take(e as int) =~= v@);
    while e > 0 && (v[e - 1] == '/' || (e >= 2 && v[e - 1] == '.' && v[e - 2] == '/'))
        invariant
            e <= v@.len(),
            trimmed(v@.take(e as int)) == trimmed(v@),
        decreases e,
    {
        assert(v@.take(e as int).drop_last() =~= v@.take(e - 1));
        e = e - 1;
    }
    e
}

fn name_start_in(v: &Vec<char>, e: usize) -> (s: usize)
    requires
        e <= v@.len(),
    ensures
        s <= e,
        s == name_start(v@.take(e as int)),
{
    let ghost t = v@.take(e as int);
    let mut s = e;
    assert(t.take(s as int) =~= t);
    while s > 0 && v[s - 1] != '/'
        invariant
            s <= e <= v@.len(),
            t == v@.take(e as int),
            name_start(t.take(s as int)) == name_start(t),
        decreases s,
    {
        assert(t.take(s as int).drop_last() =~= t.take(s - 1));
        s = s - 1;
    }
    s
}

fn dot_end_in(v: &Vec<char>, s: usize, e: usize) -> (d: usize)
    requires
        s <= e <= v@.len(),
    ensures
        s <= d <= e,
        last_dot(v@.subrange(s as int, e as int)) == if d == s { -1 } else { d - 1 - s },
{
    let ghost name = v@.subrange(s as int, e as int);
    let mut d = e;
    assert(name.take(d - s) =~= name);
    while d > s && v[d - 1] != '.'
        invariant
            s <= d <= e <= v@.len(),
            name == v@.subrange(s as int, e as int),
            last_dot(name.take(d - s)) == last_dot(name),
        decreases d,
    {
        assert(name.take(d - s).drop_last() =~= name.take(d - 1 - s));
        d = d - 1;
    }
    if d > s {
        assert(name.take(d - s).last() == '.');
    } else {
        assert(name.take(0) =~= Seq::<char>::empty());
    }
    d
}

/// `path` with its file extension set to `ext`.
pub fn with_extension(path: &str, ext: &str) -> (r: String)
    ensures
        r@ == with_ext(path@, ext@),
{
    let v = chars_of(path);
    let e = trimmed_len(&v);
    let ghost t = v@.take(e as int);
    let s = name_start_in(&v, e);
    let ghost name = t.skip(s as int);
    assert(name =~= v@.subrange(s as int, e as int));
    let d = dot_end_in(&v, s, e);
    let n = e - s;
    let is_dot = n == 1 && v[s] == '.';
    let is_dots = n == 2 && v[s] == '.' && v[s + 1] == '.';
    proof {
        if n == 1 {
            assert(is_dot == (name =~= seq!['.']));
        }
        if n == 2 {
            assert(is_dots == (name =~= seq!['.', '.']));
        }
    }
    if n == 0 || is_dot || is_dots {
        return String::from_str(path);
    }
    let stem = if d == s || d - 1 == s { n } else { d - 1 - s };
    assert(stem == stem_len(name));
    let mut r = string_of_range(&v, 0, s + stem);
    assert(r@ =~= t.take(s + stem_len(name)));
    if ext.unicode_len() > 0 {
        r.append(".");
        r.append(ext);
        proof { reveal_strlit("."); }
        assert(r@ =~= t.take(s + stem_len(name)) + (seq!['.'] + ext@));
    } else {
        assert(r@ =~= t.take(s + stem_len(name)) + Seq::<char>::empty());
    }
    r
}

/// The directory used as the asset and security root for the document at
/// `input`.
pub fn doc_root_of(input: &str) -> (r: String)
    ensures
        r@ == root_dir_of(input@),
{
    proof { reveal_strlit("."); reveal_strlit("/"); }
    let v = chars_of(input);
    let e = trimmed_len(&v);
    let s = name_start_in(&v, e);
    let w = string_of_range(&v, 0, s);
    let wv = chars_of(w.as_str());
    let k = trimmed_len(&wv);
    assert(wv@ =~= v@.take(e as int).take(s as int));
    if k == 0 {
        if e > 0 && v[0] == '/' {
            assert(v@.take(e as int)[0] == v@[0]);
            return String::from_str("/");
        }
        return String::from_str(".");
    }
    assert(e > 0 ==> v@.take(e as int)[0] == v@[0]);
    string_of_range(&wv, 0, k)
}

/// `rel` under the directory `dir`.
pub fn join_path(dir: &str, rel: &str) -> (r: String)
    ensures
        r@ == joined(dir@, rel@),
{
    proof { reveal_strlit("/"); }
    let rv = chars_of(rel);
    if rv.len() > 0 && rv[0] == '/' {
        return String::from_str(rel);
    }
    let dv = chars_of(dir);
    let mut r = String::from_str(dir);
    if dv.len() > 0 && dv[dv.len() - 1] != '/' {
        r.append("/");
    }
    r.append(rel);
    r
}

/// Where a file at `rel` under a converted directory goes under the output
/// directory `out`: the same place, with the output format's extension.
pub fn mirrored_output(out: &str, rel: &str, ext: &str) -> (r: String)
    ensures
        r@ == with_ext(joined(out@, rel@), ext@),
{
    let j = join_path(out, rel);
    with_extension(j.as_str(), ext)
}

} // verus!
