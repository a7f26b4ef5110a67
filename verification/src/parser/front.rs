//! Leading frontmatter: a `---` line, flat `key: value` lines, and a
//! closing `---` line. Nested structures are out of scope and ignored.

use vstd::prelude::*;
use crate::ir::{Meta, MetaV};
use crate::parser::xml::{find_char, find_char_in, lemma_find_char};
use crate::text::{all_ws, ascii_lower_seq, chars_of, is_blank, push_range, string_of_range, to_ascii_lower, trim, trim_end, trim_end_at, trim_start_at};

verus! {

pub open spec fn no_meta() -> MetaV {
    MetaV { title: None, author: None, date: None, subtitle: None, extra: Map::empty() }
}

/// `s` without one pair of matching surrounding quotes (`"…"` or `'…'`).
pub open spec fn unquote(s: Seq<char>) -> Seq<char> {
    if s.len() >= 2 && ((s[0] == '"' && s.last() == '"') || (s[0] == '\'' && s.last() == '\'')) {
        s.subrange(1, s.len() - 1)
    } else {
        s
    }
}

/// The metadata after one frontmatter line.
pub open spec fn apply_line(meta: MetaV, line: Seq<char>) -> MetaV {
    let l = trim_end(line);
    let c = find_char(l, ':', 0);
    if is_blank(l) || c >= l.len() {
        meta
    } else {
        let key = ascii_lower_seq(trim(l.take(c)));
        let value = unquote(trim(l.skip(c + 1)));
        if key == "title"@ {
            MetaV { title: Some(value), ..meta }
        } else if key == "author"@ || key == "authors"@ {
            MetaV { author: Some(value), ..meta }
        } else if key == "date"@ {
            MetaV { date: Some(value), ..meta }
        } else if key == "subtitle"@ {
            MetaV { subtitle: Some(value), ..meta }
        } else {
            MetaV { extra: meta.extra.insert(key, value), ..meta }
        }
    }
}

/// The metadata after the lines of `f` from position `i` on.
pub open spec fn front_lines(f: Seq<char>, i: int, meta: MetaV) -> MetaV
    decreases f.len() + 1 - i,
{
    if i < 0 || i > f.len() {
        meta
    } else {
        let e = find_char(f, '\n', i);
        let m2 = apply_line(meta, f.subrange(i, e));
        if i <= e <= f.len() { front_lines(f, e + 1, m2) } else { m2 }
    }
}

/// The offset of the first line at or after `i` that reads `---` once
/// trailing whitespace is trimmed, or −1.
pub open spec fn fence_from(s: Seq<char>, i: int) -> int
    decreases s.len() - i,
{
    if i < 0 || i >= s.len() {
        -1
    } else {
        let e = find_char(s, '\n', i);
        let le = if e < s.len() { e + 1 } else { s.len() as int };
        if trim_end(s.subrange(i, le)) == seq!['-', '-', '-'] {
            i
        } else if i < le {
            fence_from(s, le)
        } else {
            -1
        }
    }
}

/// `s` without leading `---` groups.
pub open spec fn strip_dashes(s: Seq<char>) -> Seq<char>
    decreases s.len(),
{
    if s.len() >= 3 && s[0] == '-' && s[1] == '-' && s[2] == '-' { strip_dashes(s.skip(3)) } else { s }
}

/// `s` without leading line breaks.
pub open spec fn strip_breaks(s: Seq<char>) -> Seq<char>
    decreases s.len(),
{
    if s.len() > 0 && (s[0] == '\r' || s[0] == '\n') { strip_breaks(s.skip(1)) } else { s }
}

/// The length of the opening fence line `---` at the start of `t`, or 0.
pub open spec fn opening_len(t: Seq<char>) -> int {
    if t.len() >= 4 && t[0] == '-' && t[1] == '-' && t[2] == '-' && t[3] == '\n' {
        4
    } else if t.len() >= 5 && t[0] == '-' && t[1] == '-' && t[2] == '-' && t[3] == '\r' && t[4] == '\n' {
        5
    } else {
        0
    }
}

/// The frontmatter of `input` (after an optional byte-order mark) and the
/// body after it; without a complete frontmatter block, nothing and the
/// whole input.
pub open spec fn split_front(input: Seq<char>) -> (MetaV, Seq<char>) {
    let t = if input.len() > 0 && input[0] == '\u{feff}' { input.skip(1) } else { input };
    let ol = opening_len(t);
    if ol == 0 {
        (no_meta(), input)
    } else {
        let rest = t.skip(ol);
        let end = fence_from(rest, 0);
        if end < 0 {
            (no_meta(), input)
        } else {
            (front_lines(rest.take(end), 0, no_meta()), strip_breaks(strip_dashes(rest.skip(end))))
        }
    }
}

// ---------------------------------------------------------------- exec

fn find_char_range(v: &Vec<char>, c: char, from: usize, to: usize) -> (r: usize)
    requires
        from <= to <= v@.len(),
    ensures
        from <= r <= to,
        r - from == find_char(v@.subrange(from as int, to as int), c, 0),
{
    let ghost s = v@.subrange(from as int, to as int);
    let mut k = from;
    while k < to && v[k] != c
        invariant
            from <= k <= to <= v@.len(),
            s == v@.subrange(from as int, to as int),
            find_char(s, c, 0) == find_char(s, c, k - from),
        decreases to - k,
    {
        assert(s[k - from] == v@[k as int]);
        k = k + 1;
    }
    proof {
        if k < to {
            assert(s[k - from] == v@[k as int]);
        }
    }
    k
}

fn unquote_range(v: &Vec<char>, from: usize, to: usize) -> (r: String)
    requires
        from <= to <= v@.len(),
    ensures
        r@ == unquote(v@.subrange(from as int, to as int)),
{
    let ghost s = v@.subrange(from as int, to as int);
    if to - from >= 2 && ((v[from] == '"' && v[to - 1] == '"') || (v[from] == '\'' && v[to - 1] == '\'')) {
        assert(s[0] == v@[from as int] && s.last() == v@[to - 1]);
        let r = string_of_range(v, from + 1, to - 1);
        assert(r@ =~= s.subrange(1, s.len() - 1));
        r
    } else {
        proof {
            if s.len() >= 2 {
                assert(s[0] == v@[from as int] && s.last() == v@[to - 1]);
            }
        }
        string_of_range(v, from, to)
    }
}

fn apply_line_in(meta: &mut Meta, v: &Vec<char>, a: usize, e: usize)
    requires
        a <= e <= v@.len(),
    ensures
        final(meta)@ == apply_line(old(meta)@, v@.subrange(a as int, e as int)),
{
    let ghost line = v@.subrange(a as int, e as int);
    let le = trim_end_at(v, a, e);
    let ghost l = v@.subrange(a as int, le as int);
    if all_ws(v, a, le) {
        return;
    }
    let c = find_char_range(v, ':', a, le);
    if c >= le {
        return;
    }
    let ke = trim_end_at(v, a, c);
    let ks = trim_start_at(v, a, ke);
    assert(l.take(c - a) =~= v@.subrange(a as int, c as int));
    let raw_key = string_of_range(v, ks, ke);
    let key = to_ascii_lower(raw_key.as_str());
    let ve = trim_end_at(v, c + 1, le);
    let vs = trim_start_at(v, c + 1, ve);
    assert(l.skip(c - a + 1) =~= v@.subrange(c + 1, le as int));
    let value = unquote_range(v, vs, ve);
    if crate::text::same(key.as_str(), "title") {
        meta.title = Some(value);
    } else if crate::text::same(key.as_str(), "author") || crate::text::same(key.as_str(), "authors") {
        meta.author = Some(value);
    } else if crate::text::same(key.as_str(), "date") {
        meta.date = Some(value);
    } else if crate::text::same(key.as_str(), "subtitle") {
        meta.subtitle = Some(value);
    } else {
        let ghost before = meta.extra@;
        meta.extra.push((key, value));
        assert(meta.extra@.drop_last() =~= before);
    }
}

fn fence_in(s: &Vec<char>) -> (r: Option<usize>)
    ensures
        match r {
            Some(k) => fence_from(s@, 0) == k as int && k <= s@.len(),
            None => fence_from(s@, 0) == -1,
        },
{
    let mut i: usize = 0;
    while i < s.len()
        invariant
            i <= s@.len(),
            fence_from(s@, 0) == fence_from(s@, i as int),
        decreases s.len() - i,
    {
        proof { lemma_find_char(s@, '\n', i as int); }
        let e = find_char_in(s, '\n', i);
        let le = if e < s.len() { e + 1 } else { s.len() };
        let te = trim_end_at(s, i, le);
        let ghost t = s@.subrange(i as int, te as int);
        let is_fence = te - i == 3 && s[i] == '-' && s[i + 1] == '-' && s[i + 2] == '-';
        proof {
            if te - i == 3 {
                assert(t[0] == s@[i as int] && t[1] == s@[i + 1] && t[2] == s@[i + 2]);
                if is_fence {
                    assert(t =~= seq!['-', '-', '-']);
                }
            } else {
                assert(t.len() != 3);
            }
        }
        if is_fence {
            return Some(i);
        }
        i = le;
    }
    None
}

fn meta_of_lines(front: &Vec<char>) -> (meta: Meta)
    ensures
        meta@ == front_lines(front@, 0, no_meta()),
{
    let mut meta = Meta::empty();
    let mut i: usize = 0;
    let mut done = false;
    while !done
        invariant
            i <= front@.len(),
            done ==> front_lines(front@, 0, no_meta()) == meta@,
            !done ==> front_lines(front@, 0, no_meta()) == front_lines(front@, i as int, meta@),
        decreases front.len() + 1 - i + (if done { 0int } else { 1int }),
    {
        proof { lemma_find_char(front@, '\n', i as int); }
        let e = find_char_in(front, '\n', i);
        let ghost before = meta@;
        apply_line_in(&mut meta, front, i, e);
        assert(front_lines(front@, i as int, before) == front_lines(front@, e + 1, meta@));
        if e >= front.len() {
            assert(front_lines(front@, e + 1, meta@) == meta@);
            done = true;
        } else {
            i = e + 1;
        }
    }
    meta
}

fn body_after(rest: &Vec<char>, end: usize) -> (body: String)
    requires
        end <= rest@.len(),
    ensures
        body@ == strip_breaks(strip_dashes(rest@.skip(end as int))),
{
    let mut k = end;
    while rest.len() - k >= 3 && rest[k] == '-' && rest[k + 1] == '-' && rest[k + 2] == '-'
        invariant
            end <= k <= rest@.len(),
            strip_dashes(rest@.skip(end as int)) == strip_dashes(rest@.skip(k as int)),
        decreases rest.len() - k,
    {
        assert(rest@.skip(k as int).skip(3) =~= rest@.skip(k + 3));
        k = k + 3;
    }
    let ghost d = rest@.skip(k as int);
    proof {
        if d.len() >= 3 {
            assert(d[0] == rest@[k as int] && d[1] == rest@[k + 1] && d[2] == rest@[k + 2]);
        }
    }
    assert(strip_dashes(d) == d);
    let mut j = k;
    while j < rest.len() && (rest[j] == '\r' || rest[j] == '\n')
        invariant
            k <= j <= rest@.len(),
            strip_breaks(rest@.skip(k as int)) == strip_breaks(rest@.skip(j as int)),
        decreases rest.len() - j,
    {
        assert(rest@.skip(j as int).skip(1) =~= rest@.skip(j + 1));
        j = j + 1;
    }
    proof {
        if j < rest@.len() {
            assert(rest@.skip(j as int)[0] == rest@[j as int]);
        }
    }
    let body = string_of_range(&rest, j, rest.len());
    assert(body@ =~= rest@.skip(j as int));
    body
}

/// Split a leading frontmatter block from the body: the metadata it sets
/// and the body that follows its closing fence.
pub fn split_frontmatter(input: &str) -> (r: (Meta, String))
    ensures
        (r.0@, r.1@) == split_front(input@),
{
    let v = chars_of(input);
    let b0: usize = if v.len() > 0 && v[0] == '\u{feff}' { 1 } else { 0 };
    let ghost t = if input@.len() > 0 && input@[0] == '\u{feff}' { input@.skip(1) } else { input@ };
    assert(t =~= v@.skip(b0 as int));
    let n = v.len() - b0;
    let ol: usize = if n >= 4 && v[b0] == '-' && v[b0 + 1] == '-' && v[b0 + 2] == '-' && v[b0 + 3] == '\n' {
        4
    } else if n >= 5 && v[b0] == '-' && v[b0 + 1] == '-' && v[b0 + 2] == '-' && v[b0 + 3] == '\r' && v[b0 + 4] == '\n' {
        5
    } else {
        0
    };
    assert(ol == opening_len(t));
    if ol == 0 {
        return (Meta::empty(), String::from_str(input));
    }
    let mut rest: Vec<char> = Vec::new();
    push_range(&mut rest, &v, b0 + ol, v.len());
    assert(rest@ =~= t.skip(ol as int));
    let end = match fence_in(&rest) {
        Some(k) => k,
        None => return (Meta::empty(), String::from_str(input)),
    };
    let mut front: Vec<char> = Vec::new();
    push_range(&mut front, &rest, 0, end);
    assert(front@ =~= rest@.take(end as int));
    let meta = meta_of_lines(&front);
    let body = body_after(&rest, end);
    (meta, body)
}

/// Input that does not open with a `---` line (after an optional byte-order
/// mark) has no frontmatter: no metadata, and the body is the input intact.
pub proof fn law_no_frontmatter_body_intact(input: Seq<char>)
    requires
        !(input.len() >= 3 && input[0] == '-' && input[1] == '-' && input[2] == '-'),
        !(input.len() >= 4 && input[0] == '\u{feff}' && input[1] == '-' && input[2] == '-' && input[3] == '-'),
    ensures
        split_front(input) == (no_meta(), input),
{
}

/// Frontmatter that is opened but never closed is not frontmatter either.
pub proof fn law_unclosed_frontmatter_body_intact(input: Seq<char>)
    requires
        ({
            let t = if input.len() > 0 && input[0] == '\u{feff}' { input.skip(1) } else { input };
            fence_from(t.skip(opening_len(t)), 0) < 0
        }),
    ensures
        split_front(input) == (no_meta(), input),
{
}

} // verus!
