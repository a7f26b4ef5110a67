//! Lowering the CommonMark tree to the document model.
//!
//! Footnote definitions are inlined at their references. A reference met
//! while its own definition is being expanded is dropped, so reference
//! cycles end; `mask` marks the definitions being expanded.

use vstd::prelude::*;
use crate::ir::{block_v, blocks_v, cells_v, inline_text, inline_v, inlines_v, items_v, plain_inlines, rows_v, AdmonitionKind, Align, Block, BlockV, Inline, InlineV, ItemV, ListItem};
use crate::parser::dimension::{parse_width_attr, width_attr};
use crate::parser::xml::{attr, attr_or_empty, find_char, find_char_in, lemma_find_char, lemma_xnodes_v, lemma_xnodes_v_step, name_of, tag_attr, tag_attr_or_empty, tag_name, unescape, unescape_text, xnode_v, xnodes_v, XNode, XNodeV};
use crate::text::{chars_of, char_is_ws, has_at, is_ws, owned, same, string_of_range, trim_start, trim_start_at};

verus! {

/// A footnote definition: its label and its content.
pub open spec fn defs_in(n: XNodeV) -> Seq<(Seq<char>, Seq<XNodeV>)>
    decreases n, 1nat,
{
    let own: Seq<(Seq<char>, Seq<XNodeV>)> = if name_of(n.tag) == "footnote_definition"@ {
        seq![(attr_or_empty(n.tag, " label=\""@), n.children)]
    } else {
        seq![]
    };
    own + defs_in_all(n.children)
}

/// The footnote definitions under the elements of `s`, in document order.
pub open spec fn defs_in_all(s: Seq<XNodeV>) -> Seq<(Seq<char>, Seq<XNodeV>)>
    decreases s, 0nat,
{
    if s.len() == 0 { seq![] } else { defs_in_all(s.drop_last()) + defs_in(s.last()) }
}

/// The index of the last definition below `n` labelled `label`, or −1.
pub open spec fn def_index(fd: Seq<(Seq<char>, Seq<XNodeV>)>, label: Seq<char>, n: int) -> int
    decreases n,
{
    if n <= 0 || n > fd.len() {
        -1
    } else if fd[n - 1].0 == label {
        n - 1
    } else {
        def_index(fd, label, n - 1)
    }
}

/// How many definitions are not being expanded.
pub open spec fn count_false(m: Seq<bool>) -> nat
    decreases m.len(),
{
    if m.len() == 0 { 0 } else { count_false(m.drop_last()) + (if m.last() { 0nat } else { 1nat }) }
}

pub proof fn lemma_count_false_update(m: Seq<bool>, k: int)
    requires
        0 <= k < m.len(),
        !m[k],
    ensures
        count_false(m.update(k, true)) < count_false(m),
    decreases m.len(),
{
    if k < m.len() - 1 {
        lemma_count_false_update(m.drop_last(), k);
        assert(m.update(k, true).drop_last() =~= m.drop_last().update(k, true));
    } else {
        assert(m.update(k, true).drop_last() =~= m.drop_last());
    }
}

pub open spec fn kind_of(t: Option<Seq<char>>) -> AdmonitionKind {
    if t == Some("tip"@) {
        AdmonitionKind::Tip
    } else if t == Some("important"@) {
        AdmonitionKind::Important
    } else if t == Some("warning"@) {
        AdmonitionKind::Warning
    } else if t == Some("caution"@) {
        AdmonitionKind::Caution
    } else {
        AdmonitionKind::Note
    }
}

/// The alert title when none is given.
pub open spec fn default_title(k: AdmonitionKind) -> Seq<char> {
    match k {
        AdmonitionKind::Note => "Note"@,
        AdmonitionKind::Tip => "Tip"@,
        AdmonitionKind::Important => "Important"@,
        AdmonitionKind::Warning => "Warning"@,
        AdmonitionKind::Caution => "Caution"@,
    }
}

/// The GitHub alert type that names each kind, as it stands in `[!TYPE]`
/// (lower-cased).
pub open spec fn alert_type(k: AdmonitionKind) -> Seq<char> {
    match k {
        AdmonitionKind::Note => "note"@,
        AdmonitionKind::Tip => "tip"@,
        AdmonitionKind::Important => "important"@,
        AdmonitionKind::Warning => "warning"@,
        AdmonitionKind::Caution => "caution"@,
    }
}

/// Each alert type lowers to its own kind, whose default title is that type
/// capitalised; so no two alert types share a kind, and any other type is
/// read as a note.
pub proof fn law_alert_kinds(k: AdmonitionKind, t: Seq<char>)
    ensures
        kind_of(Some(alert_type(k))) == k,
        crate::text::ascii_lower_seq(default_title(k)) == alert_type(k),
        (forall|j: AdmonitionKind| alert_type(j) != t) ==> kind_of(Some(t)) == AdmonitionKind::Note,
{
    reveal_strlit("note");
    reveal_strlit("tip");
    reveal_strlit("important");
    reveal_strlit("warning");
    reveal_strlit("caution");
    reveal_strlit("Note");
    reveal_strlit("Tip");
    reveal_strlit("Important");
    reveal_strlit("Warning");
    reveal_strlit("Caution");
    assert(crate::text::ascii_lower_seq(default_title(k)) =~= alert_type(k));
    assert("tip"@.len() != "note"@.len());
    assert("important"@ != "tip"@) by { assert("important"@.len() != "tip"@.len()); }
    assert("warning"@ != "tip"@) by { assert("warning"@.len() != "tip"@.len()); }
    assert("warning"@ != "important"@) by { assert("warning"@.len() != "important"@.len()); }
    assert("caution"@ != "tip"@) by { assert("caution"@.len() != "tip"@.len()); }
    assert("caution"@ != "important"@) by { assert("caution"@.len() != "important"@.len()); }
    assert("caution"@ != "warning"@) by { assert("caution"@[0] != "warning"@[0]); }
    assert("note"@ != "tip"@) by { assert("note"@.len() != "tip"@.len()); }
    assert("note"@ != "important"@) by { assert("note"@.len() != "important"@.len()); }
    assert("note"@ != "warning"@) by { assert("note"@.len() != "warning"@.len()); }
    assert("note"@ != "caution"@) by { assert("note"@.len() != "caution"@.len()); }
    if forall|j: AdmonitionKind| alert_type(j) != t {
        assert(alert_type(AdmonitionKind::Tip) != t);
        assert(alert_type(AdmonitionKind::Important) != t);
        assert(alert_type(AdmonitionKind::Warning) != t);
        assert(alert_type(AdmonitionKind::Caution) != t);
    }
}

pub open spec fn align_of(a: Option<Seq<char>>) -> Align {
    if a == Some("left"@) {
        Align::Left
    } else if a == Some("center"@) {
        Align::Center
    } else if a == Some("right"@) {
        Align::Right
    } else {
        Align::Unspecified
    }
}

/// The column alignments, read from the header cells.
pub open spec fn aligns(cells: Seq<XNodeV>) -> Seq<Align>
    decreases cells.len(),
{
    if cells.len() == 0 { seq![] } else { aligns(cells.drop_last()).push(align_of(attr(cells.last().tag, " align=\""@))) }
}

/// A heading level: its single digit.
pub open spec fn level_of(s: Seq<char>) -> u8 {
    if s.len() == 1 && '0' <= s[0] && s[0] <= '9' { (s[0] as int - '0' as int) as u8 } else { 0 }
}

/// A code block's info string: it stands unescaped between `info="` and
/// the literal marker; `math` carries one more attribute.
pub open spec fn code_info(tag: Seq<char>) -> Seq<char> {
    let p = "code_block info=\""@;
    let q = "\" xml:space=\"preserve\""@;
    if tag.len() >= p.len() + q.len() && tag.take(p.len() as int) == p && tag.skip(tag.len() - q.len()) == q {
        let info = tag.subrange(p.len() as int, tag.len() - q.len());
        if info == "math\" math_style=\"display"@ { "math"@ } else { info }
    } else {
        seq![]
    }
}

/// The first whitespace-separated word of `s`, if any.
pub open spec fn first_word(s: Seq<char>) -> Option<Seq<char>> {
    let t = trim_start(s);
    if t.len() == 0 {
        None
    } else {
        Some(t.take(ws_index(t, 0)))
    }
}

/// The first index at or after `i` holding whitespace.
pub open spec fn ws_index(s: Seq<char>, i: int) -> int
    decreases s.len() - i,
{
    if i < 0 || i >= s.len() || is_ws(s[i]) { i } else { ws_index(s, i + 1) }
}

// ---------------------------------------------------------------- image attributes

/// `{attrs}after`, split: the group's content and what follows it.
pub open spec fn brace_group(t: Seq<char>) -> Option<(Seq<char>, Seq<char>)> {
    if t.len() > 0 && t[0] == '{' {
        let r = t.skip(1);
        let e = find_char(r, '}', 0);
        if e < r.len() { Some((r.take(e), r.skip(e + 1))) } else { None }
    } else {
        None
    }
}

/// An image followed by text that opens with a `{…}` group asking for a
/// valid width: the width and the text after the group.
pub open spec fn width_fix(img: InlineV, next: InlineV) -> Option<(Seq<char>, Seq<char>)> {
    match (img, next) {
        (InlineV::Image { .. }, InlineV::Text(t)) => match brace_group(t) {
            Some((a, after)) => match width_attr(a) {
                Some(w) => Some((w, after)),
                None => None,
            },
            None => None,
        },
        _ => None,
    }
}

/// Element `i` once image attribute groups are folded into their images.
pub open spec fn attached_at(s: Seq<InlineV>, i: int) -> InlineV {
    if i + 1 < s.len() && width_fix(s[i], s[i + 1]) is Some {
        match s[i] {
            InlineV::Image { src, alt, .. } => InlineV::Image { src, alt, width: Some(width_fix(s[i], s[i + 1])->Some_0.0) },
            other => other,
        }
    } else if 1 <= i && width_fix(s[i - 1], s[i]) is Some {
        InlineV::Text(width_fix(s[i - 1], s[i])->Some_0.1)
    } else {
        s[i]
    }
}

pub open spec fn attached(s: Seq<InlineV>) -> Seq<InlineV> {
    Seq::new(s.len(), |i: int| attached_at(s, i))
}

/// `s` without empty text.
pub open spec fn drop_empty_text(s: Seq<InlineV>) -> Seq<InlineV>
    decreases s.len(),
{
    if s.len() == 0 {
        seq![]
    } else {
        let rest = drop_empty_text(s.drop_last());
        match s.last() {
            InlineV::Text(t) => if t.len() == 0 { rest } else { rest.push(s.last()) },
            _ => rest.push(s.last()),
        }
    }
}

// ---------------------------------------------------------------- lowering

/// The block an element lowers to, if any.
pub open spec fn blk(n: XNodeV, fd: Seq<(Seq<char>, Seq<XNodeV>)>, m: Seq<bool>) -> Option<BlockV>
    decreases count_false(m), n,
{
    let nm = name_of(n.tag);
    if nm == "paragraph"@ {
        Some(BlockV::Paragraph(inline_list(n.children, fd, m)))
    } else if nm == "heading"@ {
        Some(BlockV::Heading { level: level_of(attr_or_empty(n.tag, " level=\""@)), content: inline_list(n.children, fd, m) })
    } else if nm == "code_block"@ {
        Some(BlockV::CodeBlock { lang: first_word(code_info(n.tag)), code: unescape(n.text) })
    } else if nm == "block_quote"@ {
        Some(BlockV::BlockQuote(blks(n.children, fd, m)))
    } else if nm == "list"@ {
        Some(BlockV::List { ordered: attr(n.tag, " type=\""@) == Some("ordered"@), items: items(n.children, fd, m) })
    } else if nm == "table"@ {
        Some(tbl(n.children, fd, m))
    } else if nm == "alert"@ {
        let kind = kind_of(attr(n.tag, " type=\""@));
        let title = match attr(n.tag, " title=\""@) {
            Some(t) => unescape(t),
            None => default_title(kind),
        };
        Some(BlockV::Admonition { kind, title, blocks: blks(n.children, fd, m) })
    } else if nm == "thematic_break"@ {
        Some(BlockV::ThematicBreak)
    } else if nm == "html_block"@ {
        Some(BlockV::RawHtml(unescape(n.text)))
    } else if nm == "footnote_definition"@ {
        None
    } else {
        let cs = blks(n.children, fd, m);
        if cs.len() == 0 {
            None
        } else if cs.len() == 1 {
            Some(cs[0])
        } else {
            Some(BlockV::BlockQuote(cs))
        }
    }
}

/// The blocks the elements of `s` lower to, in order.
pub open spec fn blks(s: Seq<XNodeV>, fd: Seq<(Seq<char>, Seq<XNodeV>)>, m: Seq<bool>) -> Seq<BlockV>
    decreases count_false(m), s,
{
    if s.len() == 0 {
        seq![]
    } else {
        let rest = blks(s.drop_last(), fd, m);
        match blk(s.last(), fd, m) {
            Some(b) => rest.push(b),
            None => rest,
        }
    }
}

pub open spec fn item(n: XNodeV, fd: Seq<(Seq<char>, Seq<XNodeV>)>, m: Seq<bool>) -> ItemV
    decreases count_false(m), n,
{
    ItemV {
        task: if name_of(n.tag) == "taskitem"@ { Some(attr(n.tag, " completed=\""@) == Some("true"@)) } else { None },
        blocks: blks(n.children, fd, m),
    }
}

pub open spec fn items(s: Seq<XNodeV>, fd: Seq<(Seq<char>, Seq<XNodeV>)>, m: Seq<bool>) -> Seq<ItemV>
    decreases count_false(m), s,
{
    if s.len() == 0 { seq![] } else { items(s.drop_last(), fd, m).push(item(s.last(), fd, m)) }
}

/// A table from its rows: the first row is the header.
pub open spec fn tbl(rows: Seq<XNodeV>, fd: Seq<(Seq<char>, Seq<XNodeV>)>, m: Seq<bool>) -> BlockV
    decreases count_false(m), rows,
{
    if rows.len() == 0 {
        BlockV::Table { align: seq![], head: seq![], rows: seq![] }
    } else {
        BlockV::Table { align: aligns(rows[0].children), head: row_cells(rows[0], fd, m), rows: body_rows(rows.drop_first(), fd, m) }
    }
}

pub open spec fn body_rows(s: Seq<XNodeV>, fd: Seq<(Seq<char>, Seq<XNodeV>)>, m: Seq<bool>) -> Seq<Seq<Seq<InlineV>>>
    decreases count_false(m), s,
{
    if s.len() == 0 { seq![] } else { body_rows(s.drop_last(), fd, m).push(row_cells(s.last(), fd, m)) }
}

pub open spec fn row_cells(r: XNodeV, fd: Seq<(Seq<char>, Seq<XNodeV>)>, m: Seq<bool>) -> Seq<Seq<InlineV>>
    decreases count_false(m), r,
{
    cells(r.children, fd, m)
}

pub open spec fn cells(s: Seq<XNodeV>, fd: Seq<(Seq<char>, Seq<XNodeV>)>, m: Seq<bool>) -> Seq<Seq<InlineV>>
    decreases count_false(m), s,
{
    if s.len() == 0 { seq![] } else { cells(s.drop_last(), fd, m).push(cell(s.last(), fd, m)) }
}

pub open spec fn cell(c: XNodeV, fd: Seq<(Seq<char>, Seq<XNodeV>)>, m: Seq<bool>) -> Seq<InlineV>
    decreases count_false(m), c,
{
    inline_list(c.children, fd, m)
}

/// The inline content of an element's children: collected, image
/// attribute groups folded in, empty text dropped.
pub open spec fn inline_list(s: Seq<XNodeV>, fd: Seq<(Seq<char>, Seq<XNodeV>)>, m: Seq<bool>) -> Seq<InlineV>
    decreases count_false(m), s, 1nat,
{
    drop_empty_text(attached(inls(s, fd, m)))
}

/// The inlines the elements of `s` contribute, in order.
pub open spec fn inls(s: Seq<XNodeV>, fd: Seq<(Seq<char>, Seq<XNodeV>)>, m: Seq<bool>) -> Seq<InlineV>
    decreases count_false(m), s, 0nat,
{
    if s.len() == 0 { seq![] } else { inls(s.drop_last(), fd, m) + inl(s.last(), fd, m) }
}

/// The inlines one element contributes.
pub open spec fn inl(n: XNodeV, fd: Seq<(Seq<char>, Seq<XNodeV>)>, m: Seq<bool>) -> Seq<InlineV>
    decreases count_false(m), n, 0nat,
{
    let nm = name_of(n.tag);
    if nm == "text"@ {
        seq![InlineV::Text(unescape(n.text))]
    } else if nm == "softbreak"@ {
        seq![InlineV::SoftBreak]
    } else if nm == "linebreak"@ {
        seq![InlineV::LineBreak]
    } else if nm == "code"@ {
        seq![InlineV::Code(unescape(n.text))]
    } else if nm == "emph"@ {
        seq![InlineV::Emph(inline_list(n.children, fd, m))]
    } else if nm == "strong"@ {
        seq![InlineV::Strong(inline_list(n.children, fd, m))]
    } else if nm == "strikethrough"@ {
        seq![InlineV::Strikethrough(inline_list(n.children, fd, m))]
    } else if nm == "superscript"@ {
        seq![InlineV::Superscript(inline_list(n.children, fd, m))]
    } else if nm == "link"@ {
        seq![InlineV::Link { href: unescape(attr_or_empty(n.tag, " destination=\""@)), content: inline_list(n.children, fd, m) }]
    } else if nm == "image"@ {
        seq![InlineV::Image {
            src: unescape(attr_or_empty(n.tag, " destination=\""@)),
            alt: plain_inlines(inline_list(n.children, fd, m)),
            width: None,
        }]
    } else if nm == "footnote_reference"@ {
        let k = def_index(fd, attr_or_empty(n.tag, " label=\""@), fd.len() as int);
        if 0 <= k < m.len() && !m[k] {
            proof { lemma_count_false_update(m, k); }
            seq![InlineV::Footnote(blks(fd[k].1, fd, m.update(k, true)))]
        } else {
            seq![]
        }
    } else if nm == "html_inline"@ {
        seq![]
    } else {
        inls(n.children, fd, m)
    }
}

// ---------------------------------------------------------------- lowering (exec)

/// The footnote definitions as gathered: label and content.
pub open spec fn defs_view(fd: Seq<(String, &Vec<XNode>)>) -> Seq<(Seq<char>, Seq<XNodeV>)> {
    fd.map_values(|e: (String, &Vec<XNode>)| (e.0@, xnodes_v(e.1@)))
}

pub open spec fn opt_block_v(o: Option<Block>) -> Option<BlockV> {
    match o {
        Some(b) => Some(b@),
        None => None,
    }
}

proof fn lemma_inlines_push(a: Seq<Inline>, x: Inline)
    ensures
        inlines_v(a.push(x)) == inlines_v(a).push(inline_v(x)),
{
    assert(a.push(x).drop_last() =~= a);
}

proof fn lemma_blocks_push(a: Seq<Block>, x: Block)
    ensures
        blocks_v(a.push(x)) == blocks_v(a).push(block_v(x)),
{
    assert(a.push(x).drop_last() =~= a);
}

/// Gather the footnote definitions at and below `n`, in document order.
pub fn collect_defs<'a>(n: &'a XNode, out: &mut Vec<(String, &'a Vec<XNode>)>)
    ensures
        defs_view(final(out)@) == defs_view(old(out)@) + defs_in(n@),
    decreases n,
{
    let ghost o0 = defs_view(out@);
    let name = tag_name(n.tag.as_str());
    if same(name.as_str(), "footnote_definition") {
        let label = tag_attr_or_empty(n.tag.as_str(), " label=\"");
        let ghost before = out@;
        out.push((label, &n.children));
        assert(defs_view(out@) =~= defs_view(before).push((label@, xnodes_v(n.children@))));
    }
    let ghost o1 = defs_view(out@);
    let mut i: usize = 0;
    while i < n.children.len()
        invariant
            i <= n.children@.len(),
            defs_view(out@) == o1 + defs_in_all(xnodes_v(n.children@.take(i as int))),
        decreases n.children.len() - i,
    {
        proof { lemma_xnodes_v_step(n.children@, i as int); }
        let ghost before = defs_view(out@);
        let ghost xs = xnodes_v(n.children@.take(i + 1));
        assert(xs.drop_last() =~= xnodes_v(n.children@.take(i as int)));
        assert(xs.last() == xnode_v(n.children@[i as int]));
        collect_defs(&n.children[i], out);
        assert(defs_view(out@) =~= o1 + defs_in_all(xs));
        i = i + 1;
    }
    assert(n.children@.take(i as int) =~= n.children@);
    assert(defs_view(out@) =~= o0 + defs_in(n@));
}

pub(crate) fn find_def(fd: &Vec<(String, &Vec<XNode>)>, label: &str) -> (r: Option<usize>)
    ensures
        match r {
            Some(k) => k as int == def_index(defs_view(fd@), label@, fd@.len() as int) && k < fd@.len(),
            None => def_index(defs_view(fd@), label@, fd@.len() as int) == -1,
        },
{
    let mut n = fd.len();
    while n > 0
        invariant
            n <= fd@.len(),
            def_index(defs_view(fd@), label@, fd@.len() as int) == def_index(defs_view(fd@), label@, n as int),
        decreases n,
    {
        if same(fd[n - 1].0.as_str(), label) {
            return Some(n - 1);
        }
        n = n - 1;
    }
    None
}

pub(crate) fn marked(m: &Vec<bool>, k: usize) -> (r: Vec<bool>)
    requires
        k < m@.len(),
    ensures
        r@ == m@.update(k as int, true),
{
    let mut r: Vec<bool> = Vec::new();
    let mut i: usize = 0;
    while i < m.len()
        invariant
            i <= m@.len(),
            k < m@.len(),
            r@ == m@.update(k as int, true).take(i as int),
        decreases m.len() - i,
    {
        if i == k {
            r.push(true);
        } else {
            r.push(m[i]);
        }
        assert(r@ =~= m@.update(k as int, true).take(i + 1));
        i = i + 1;
    }
    assert(m@.update(k as int, true).take(i as int) =~= m@.update(k as int, true));
    r
}

pub(crate) fn first_word_of(info: &str) -> (r: Option<String>)
    ensures
        match r {
            Some(w) => first_word(info@) == Some(w@),
            None => first_word(info@) is None,
        },
{
    let v = chars_of(info);
    let b = trim_start_at(&v, 0, v.len());
    assert(v@.subrange(0, v@.len() as int) =~= v@);
    if b >= v.len() {
        return None;
    }
    let ghost t = v@.subrange(b as int, v@.len() as int);
    let mut e = b;
    while e < v.len() && !char_is_ws(v[e])
        invariant
            b <= e <= v@.len(),
            b < v@.len(),
            t == v@.subrange(b as int, v@.len() as int),
            ws_index(t, 0) == ws_index(t, e - b),
        decreases v.len() - e,
    {
        assert(t[e - b] == v@[e as int]);
        e = e + 1;
    }
    proof {
        if e < v.len() {
            assert(t[e - b] == v@[e as int]);
        }
    }
    let w = string_of_range(&v, b, e);
    assert(w@ =~= t.take(e - b));
    Some(w)
}

pub(crate) fn code_info_of(tag: &str) -> (r: String)
    ensures
        r@ == code_info(tag@),
{
    proof {
        reveal_strlit("code_block info=\"");
        reveal_strlit("\" xml:space=\"preserve\"");
    }
    let v = chars_of(tag);
    let p = chars_of("code_block info=\"");
    let q = chars_of("\" xml:space=\"preserve\"");
    if v.len() < p.len() + q.len() {
        return String::new();
    }
    let lead = has_at(&v, 0, "code_block info=\"");
    let tail = has_at(&v, v.len() - q.len(), "\" xml:space=\"preserve\"");
    assert(v@.skip(0).take(p@.len() as int) =~= v@.take(p@.len() as int));
    assert(v@.skip(v@.len() - q@.len()).take(q@.len() as int) =~= v@.skip(v@.len() - q@.len()));
    if !(lead && tail) {
        return String::new();
    }
    let info = string_of_range(&v, p.len(), v.len() - q.len());
    if same(info.as_str(), "math\" math_style=\"display") {
        return owned("math");
    }
    info
}

fn level_from(s: &str) -> (r: u8)
    ensures
        r == level_of(s@),
{
    let v = chars_of(s);
    if v.len() == 1 && '0' <= v[0] && v[0] <= '9' {
        (v[0] as u32 - '0' as u32) as u8
    } else {
        0
    }
}

fn kind_from(t: &Option<String>) -> (k: AdmonitionKind)
    ensures
        k == kind_of(match t { Some(x) => Some(x@), None => None }),
{
    match t {
        Some(x) => {
            if same(x.as_str(), "tip") {
                AdmonitionKind::Tip
            } else if same(x.as_str(), "important") {
                AdmonitionKind::Important
            } else if same(x.as_str(), "warning") {
                AdmonitionKind::Warning
            } else if same(x.as_str(), "caution") {
                AdmonitionKind::Caution
            } else {
                AdmonitionKind::Note
            }
        },
        None => AdmonitionKind::Note,
    }
}

fn title_for(k: AdmonitionKind) -> (t: String)
    ensures
        t@ == default_title(k),
{
    match k {
        AdmonitionKind::Note => owned("Note"),
        AdmonitionKind::Tip => owned("Tip"),
        AdmonitionKind::Important => owned("Important"),
        AdmonitionKind::Warning => owned("Warning"),
        AdmonitionKind::Caution => owned("Caution"),
    }
}

pub(crate) fn align_from(a: &Option<String>) -> (r: Align)
    ensures
        r == align_of(match a { Some(x) => Some(x@), None => None }),
{
    match a {
        Some(x) => {
            if same(x.as_str(), "left") {
                Align::Left
            } else if same(x.as_str(), "center") {
                Align::Center
            } else if same(x.as_str(), "right") {
                Align::Right
            } else {
                Align::Unspecified
            }
        },
        None => Align::Unspecified,
    }
}

fn aligns_of(cells: &Vec<XNode>) -> (r: Vec<Align>)
    ensures
        r@ == aligns(xnodes_v(cells@)),
{
    let mut r: Vec<Align> = Vec::new();
    let mut i: usize = 0;
    while i < cells.len()
        invariant
            i <= cells@.len(),
            r@ == aligns(xnodes_v(cells@.take(i as int))),
        decreases cells.len() - i,
    {
        proof { lemma_xnodes_v_step(cells@, i as int); }
        let ghost xs = xnodes_v(cells@.take(i + 1));
        assert(xs.drop_last() =~= xnodes_v(cells@.take(i as int)));
        assert(xs.last() == xnode_v(cells@[i as int]));
        let a = tag_attr(cells[i].tag.as_str(), " align=\"");
        let al = align_from(&a);
        r.push(al);
        i = i + 1;
    }
    assert(cells@.take(i as int) =~= cells@);
    r
}

// ---------------------------------------------------------------- image attributes (exec)

pub open spec fn pair_v(r: Option<(String, String)>) -> Option<(Seq<char>, Seq<char>)> {
    match r {
        Some((a, b)) => Some((a@, b@)),
        None => None,
    }
}

proof fn lemma_find_char_skip(s: Seq<char>, c: char, j: int, k: int)
    requires
        0 <= k <= s.len(),
        0 <= j,
    ensures
        find_char(s.skip(k), c, j) == find_char(s, c, j + k) - k,
    decreases s.len() - k - j,
{
    if j < s.len() - k && s[j + k] != c {
        assert(s.skip(k)[j] == s[j + k]);
        lemma_find_char_skip(s, c, j + 1, k);
    } else if j < s.len() - k {
        assert(s.skip(k)[j] == s[j + k]);
    }
}

fn brace_group_of(t: &str) -> (r: Option<(String, String)>)
    ensures
        pair_v(r) == brace_group(t@),
{
    let v = chars_of(t);
    if v.len() == 0 || v[0] != '{' {
        return None;
    }
    let e1 = find_char_in(&v, '}', 1);
    proof {
        lemma_find_char(v@, '}', 1);
        lemma_find_char_skip(v@, '}', 0, 1);
    }
    if e1 >= v.len() {
        return None;
    }
    let attrs = string_of_range(&v, 1, e1);
    let after = string_of_range(&v, e1 + 1, v.len());
    assert(attrs@ =~= v@.skip(1).take(e1 - 1));
    assert(after@ =~= v@.skip(1).skip(e1 - 1 + 1));
    Some((attrs, after))
}

fn width_fix_of(a: &Inline, b: &Inline) -> (r: Option<(String, String)>)
    ensures
        pair_v(r) == width_fix(a@, b@),
{
    match (a, b) {
        (Inline::Image { .. }, Inline::Text(t)) => match brace_group_of(t.as_str()) {
            Some((attrs, after)) => match parse_width_attr(attrs.as_str()) {
                Some(w) => Some((w, after)),
                None => None,
            },
            None => None,
        },
        _ => None,
    }
}

/// Fold `{width=…}` groups into the images before them, then drop empty text.
fn attach_and_clean(v: Vec<Inline>) -> (out: Vec<Inline>)
    ensures
        inlines_v(out@) == drop_empty_text(attached(inlines_v(v@))),
{
    let ghost sv = inlines_v(v@);
    proof { crate::ir::lemma_inlines_v(v@); }
    let n = v.len();
    let mut fixes: Vec<Option<(String, String)>> = Vec::new();
    let mut i: usize = 0;
    while i < n
        invariant
            i <= n == v@.len(),
            sv == inlines_v(v@),
            sv.len() == v@.len(),
            forall|j: int| 0 <= j < v@.len() ==> #[trigger] sv[j] == inline_v(v@[j]),
            fixes@.len() == i,
            forall|j: int| 0 <= j < i ==> pair_v(#[trigger] fixes@[j]) == (if j + 1 < n { width_fix(sv[j], sv[j + 1]) } else { None }),
        decreases n - i,
    {
        if i + 1 < n {
            let f = width_fix_of(&v[i], &v[i + 1]);
            fixes.push(f);
        } else {
            fixes.push(None);
        }
        i = i + 1;
    }
    let ghost att = attached(sv);
    let mut rest = v;
    let mut out: Vec<Inline> = Vec::new();
    let mut k: usize = 0;
    assert(v@.skip(0) =~= v@);
    assert(att.take(0) =~= Seq::<InlineV>::empty());
    while k < n
        invariant
            k <= n == sv.len(),
            n == v@.len(),
            fixes@.len() == n,
            forall|j: int| 0 <= j < n ==> pair_v(#[trigger] fixes@[j]) == (if j + 1 < n { width_fix(sv[j], sv[j + 1]) } else { None }),
            att == attached(sv),
            rest@ == v@.skip(k as int),
            forall|j: int| 0 <= j < v@.len() ==> #[trigger] sv[j] == inline_v(v@[j]),
            inlines_v(out@) == drop_empty_text(att.take(k as int)),
        decreases n - k,
    {
        let x = rest.remove(0);
        assert(x == v@[k as int]);
        assert(rest@ =~= v@.skip(k + 1));
        let y = match &fixes[k] {
            Some((w, _)) => match x {
                Inline::Image { src, alt, width: _ } => Inline::Image { src, alt, width: Some(w.clone()) },
                other => other,
            },
            None => {
                if k >= 1 {
                    match &fixes[k - 1] {
                        Some((_, after)) => Inline::Text(after.clone()),
                        None => x,
                    }
                } else {
                    x
                }
            },
        };
        assert(inline_v(y) == att[k as int]);
        assert(att.take(k + 1).drop_last() =~= att.take(k as int));
        let empty = match &y {
            Inline::Text(t) => t.as_str().is_empty(),
            _ => false,
        };
        if !empty {
            proof { lemma_inlines_push(out@, y); }
            out.push(y);
        }
        k = k + 1;
    }
    assert(att.take(n as int) =~= att);
    out
}

// ---------------------------------------------------------------- the tree walk (exec)

/// The block an element lowers to.
fn lower_block<'a>(n: &'a XNode, fd: &Vec<(String, &'a Vec<XNode>)>, m: &Vec<bool>) -> (r: Option<Block>)
    ensures
        opt_block_v(r) == blk(n@, defs_view(fd@), m@),
    decreases count_false(m@), n, 0nat,
{
    let tag = n.tag.as_str();
    let name = tag_name(tag);
    if same(name.as_str(), "paragraph") {
        Some(Block::Paragraph(lower_inline_list(&n.children, fd, m)))
    } else if same(name.as_str(), "heading") {
        let lv = tag_attr_or_empty(tag, " level=\"");
        Some(Block::Heading { level: level_from(lv.as_str()), content: lower_inline_list(&n.children, fd, m) })
    } else if same(name.as_str(), "code_block") {
        let info = code_info_of(tag);
        Some(Block::CodeBlock { lang: first_word_of(info.as_str()), code: unescape_text(n.text.as_str()) })
    } else if same(name.as_str(), "block_quote") {
        Some(Block::BlockQuote(lower_blocks(&n.children, fd, m)))
    } else if same(name.as_str(), "list") {
        let ty = tag_attr(tag, " type=\"");
        let ordered = match &ty {
            Some(t) => same(t.as_str(), "ordered"),
            None => false,
        };
        Some(Block::List { ordered, items: lower_items(&n.children, fd, m) })
    } else if same(name.as_str(), "table") {
        Some(lower_table(&n.children, fd, m))
    } else if same(name.as_str(), "alert") {
        let ty = tag_attr(tag, " type=\"");
        let kind = kind_from(&ty);
        let title = match tag_attr(tag, " title=\"") {
            Some(t) => unescape_text(t.as_str()),
            None => title_for(kind),
        };
        Some(Block::Admonition { kind, title, blocks: lower_blocks(&n.children, fd, m) })
    } else if same(name.as_str(), "thematic_break") {
        Some(Block::ThematicBreak)
    } else if same(name.as_str(), "html_block") {
        Some(Block::RawHtml(unescape_text(n.text.as_str())))
    } else if same(name.as_str(), "footnote_definition") {
        None
    } else {
        let mut cs = lower_blocks(&n.children, fd, m);
        proof { crate::ir::lemma_blocks_v(cs@); }
        if cs.len() == 0 {
            None
        } else if cs.len() == 1 {
            cs.pop()
        } else {
            Some(Block::BlockQuote(cs))
        }
    }
}

/// The blocks the elements of `v` lower to, in order.
pub(crate) fn lower_blocks<'a>(v: &'a Vec<XNode>, fd: &Vec<(String, &'a Vec<XNode>)>, m: &Vec<bool>) -> (r: Vec<Block>)
    ensures
        blocks_v(r@) == blks(xnodes_v(v@), defs_view(fd@), m@),
    decreases count_false(m@), v, 0nat,
{
    let mut out: Vec<Block> = Vec::new();
    let mut i: usize = 0;
    while i < v.len()
        invariant
            i <= v@.len(),
            blocks_v(out@) == blks(xnodes_v(v@.take(i as int)), defs_view(fd@), m@),
        decreases v.len() - i,
    {
        proof { lemma_xnodes_v_step(v@, i as int); }
        let ghost xs = xnodes_v(v@.take(i + 1));
        assert(xs.drop_last() =~= xnodes_v(v@.take(i as int)));
        assert(xs.last() == xnode_v(v@[i as int]));
        match lower_block(&v[i], fd, m) {
            Some(b) => {
                proof { lemma_blocks_push(out@, b); }
                out.push(b);
            },
            None => {},
        }
        i = i + 1;
    }
    assert(v@.take(i as int) =~= v@);
    out
}

fn lower_item<'a>(n: &'a XNode, fd: &Vec<(String, &'a Vec<XNode>)>, m: &Vec<bool>) -> (r: ListItem)
    ensures
        r.task == item(n@, defs_view(fd@), m@).task,
        blocks_v(r.blocks@) == item(n@, defs_view(fd@), m@).blocks,
    decreases count_false(m@), n, 0nat,
{
    let tag = n.tag.as_str();
    let name = tag_name(tag);
    let task = if same(name.as_str(), "taskitem") {
        let c = tag_attr(tag, " completed=\"");
        Some(match &c {
            Some(x) => same(x.as_str(), "true"),
            None => false,
        })
    } else {
        None
    };
    ListItem { task, blocks: lower_blocks(&n.children, fd, m) }
}

fn lower_items<'a>(v: &'a Vec<XNode>, fd: &Vec<(String, &'a Vec<XNode>)>, m: &Vec<bool>) -> (r: Vec<ListItem>)
    ensures
        items_v(r@) == items(xnodes_v(v@), defs_view(fd@), m@),
    decreases count_false(m@), v, 0nat,
{
    let mut out: Vec<ListItem> = Vec::new();
    let mut i: usize = 0;
    while i < v.len()
        invariant
            i <= v@.len(),
            items_v(out@) == items(xnodes_v(v@.take(i as int)), defs_view(fd@), m@),
        decreases v.len() - i,
    {
        proof { lemma_xnodes_v_step(v@, i as int); }
        let ghost xs = xnodes_v(v@.take(i + 1));
        assert(xs.drop_last() =~= xnodes_v(v@.take(i as int)));
        assert(xs.last() == xnode_v(v@[i as int]));
        let it = lower_item(&v[i], fd, m);
        let ghost before = out@;
        out.push(it);
        assert(out@.drop_last() =~= before);
        i = i + 1;
    }
    assert(v@.take(i as int) =~= v@);
    out
}

fn lower_table<'a>(rows: &'a Vec<XNode>, fd: &Vec<(String, &'a Vec<XNode>)>, m: &Vec<bool>) -> (r: Block)
    ensures
        r@ == tbl(xnodes_v(rows@), defs_view(fd@), m@),
    decreases count_false(m@), rows, 0nat,
{
    proof { lemma_xnodes_v(rows@); }
    if rows.len() == 0 {
        let head: Vec<Vec<Inline>> = Vec::new();
        let body: Vec<Vec<Vec<Inline>>> = Vec::new();
        assert(cells_v(head@) =~= Seq::<Seq<InlineV>>::empty());
        assert(rows_v(body@) =~= Seq::<Seq<Seq<InlineV>>>::empty());
        return Block::Table { align: Vec::new(), head, rows: body };
    }
    let align = aligns_of(&rows[0].children);
    let head = lower_row(&rows[0], fd, m);
    let ghost d = xnodes_v(rows@).drop_first();
    let mut body: Vec<Vec<Vec<Inline>>> = Vec::new();
    let mut i: usize = 1;
    assert(d.take(0) =~= Seq::<XNodeV>::empty());
    assert(rows_v(body@) =~= Seq::<Seq<Seq<InlineV>>>::empty());
    while i < rows.len()
        invariant
            1 <= i <= rows@.len(),
            d == xnodes_v(rows@).drop_first(),
            xnodes_v(rows@).len() == rows@.len(),
            forall|j: int| 0 <= j < rows@.len() ==> #[trigger] xnodes_v(rows@)[j] == xnode_v(rows@[j]),
            rows_v(body@) == body_rows(d.take(i - 1), defs_view(fd@), m@),
        decreases rows.len() - i,
    {
        let cs = lower_row(&rows[i], fd, m);
        assert(d.take(i as int).drop_last() =~= d.take(i - 1));
        assert(d.take(i as int).last() == xnode_v(rows@[i as int]));
        let ghost before = body@;
        body.push(cs);
        assert(body@.drop_last() =~= before);
        i = i + 1;
    }
    assert(d.take(i - 1) =~= d);
    Block::Table { align, head, rows: body }
}

fn lower_row<'a>(r: &'a XNode, fd: &Vec<(String, &'a Vec<XNode>)>, m: &Vec<bool>) -> (c: Vec<Vec<Inline>>)
    ensures
        cells_v(c@) == row_cells(r@, defs_view(fd@), m@),
    decreases count_false(m@), r, 0nat,
{
    lower_cells(&r.children, fd, m)
}

fn lower_cells<'a>(v: &'a Vec<XNode>, fd: &Vec<(String, &'a Vec<XNode>)>, m: &Vec<bool>) -> (r: Vec<Vec<Inline>>)
    ensures
        cells_v(r@) == cells(xnodes_v(v@), defs_view(fd@), m@),
    decreases count_false(m@), v, 0nat,
{
    let mut out: Vec<Vec<Inline>> = Vec::new();
    let mut i: usize = 0;
    while i < v.len()
        invariant
            i <= v@.len(),
            cells_v(out@) == cells(xnodes_v(v@.take(i as int)), defs_view(fd@), m@),
        decreases v.len() - i,
    {
        proof { lemma_xnodes_v_step(v@, i as int); }
        let ghost xs = xnodes_v(v@.take(i + 1));
        assert(xs.drop_last() =~= xnodes_v(v@.take(i as int)));
        assert(xs.last() == xnode_v(v@[i as int]));
        let c = lower_inline_list(&v[i].children, fd, m);
        assert(xnode_v(v@[i as int]).children == xnodes_v(v@[i as int].children@));
        assert(cell(xnode_v(v@[i as int]), defs_view(fd@), m@) == inline_list(xnodes_v(v@[i as int].children@), defs_view(fd@), m@));
        let ghost before = out@;
        out.push(c);
        assert(out@.drop_last() =~= before);
        i = i + 1;
    }
    assert(v@.take(i as int) =~= v@);
    out
}

/// The inline content of the elements of `v`.
fn lower_inline_list<'a>(v: &'a Vec<XNode>, fd: &Vec<(String, &'a Vec<XNode>)>, m: &Vec<bool>) -> (r: Vec<Inline>)
    ensures
        inlines_v(r@) == inline_list(xnodes_v(v@), defs_view(fd@), m@),
    decreases count_false(m@), v, 1nat,
{
    let mut raw: Vec<Inline> = Vec::new();
    assert(inlines_v(raw@) =~= Seq::<InlineV>::empty());
    collect_inlines(v, fd, m, &mut raw);
    assert(inlines_v(raw@) =~= inls(xnodes_v(v@), defs_view(fd@), m@));
    attach_and_clean(raw)
}

fn collect_inlines<'a>(v: &'a Vec<XNode>, fd: &Vec<(String, &'a Vec<XNode>)>, m: &Vec<bool>, out: &mut Vec<Inline>)
    ensures
        inlines_v(final(out)@) == inlines_v(old(out)@) + inls(xnodes_v(v@), defs_view(fd@), m@),
    decreases count_false(m@), v, 0nat,
{
    let ghost o0 = inlines_v(out@);
    let mut i: usize = 0;
    assert(o0 + inls(xnodes_v(v@.take(0)), defs_view(fd@), m@) =~= o0);
    while i < v.len()
        invariant
            i <= v@.len(),
            inlines_v(out@) == o0 + inls(xnodes_v(v@.take(i as int)), defs_view(fd@), m@),
        decreases v.len() - i,
    {
        proof { lemma_xnodes_v_step(v@, i as int); }
        let ghost xs = xnodes_v(v@.take(i + 1));
        assert(xs.drop_last() =~= xnodes_v(v@.take(i as int)));
        assert(xs.last() == xnode_v(v@[i as int]));
        lower_inline(&v[i], fd, m, out);
        assert(inlines_v(out@) =~= o0 + inls(xs, defs_view(fd@), m@));
        i = i + 1;
    }
    assert(v@.take(i as int) =~= v@);
}

fn push_inline(out: &mut Vec<Inline>, x: Inline)
    ensures
        inlines_v(final(out)@) == inlines_v(old(out)@) + seq![inline_v(x)],
{
    proof { lemma_inlines_push(out@, x); }
    out.push(x);
    assert(inlines_v(old(out)@).push(inline_v(x)) =~= inlines_v(old(out)@) + seq![inline_v(x)]);
}

/// Append the inlines one element contributes.
fn lower_inline<'a>(n: &'a XNode, fd: &Vec<(String, &'a Vec<XNode>)>, m: &Vec<bool>, out: &mut Vec<Inline>)
    ensures
        inlines_v(final(out)@) == inlines_v(old(out)@) + inl(n@, defs_view(fd@), m@),
    decreases count_false(m@), n, 0nat,
{
    let tag = n.tag.as_str();
    let name = tag_name(tag);
    if same(name.as_str(), "text") {
        push_inline(out, Inline::Text(unescape_text(n.text.as_str())));
    } else if same(name.as_str(), "softbreak") {
        push_inline(out, Inline::SoftBreak);
    } else if same(name.as_str(), "linebreak") {
        push_inline(out, Inline::LineBreak);
    } else if same(name.as_str(), "code") {
        push_inline(out, Inline::Code(unescape_text(n.text.as_str())));
    } else if same(name.as_str(), "emph") {
        push_inline(out, Inline::Emph(lower_inline_list(&n.children, fd, m)));
    } else if same(name.as_str(), "strong") {
        push_inline(out, Inline::Strong(lower_inline_list(&n.children, fd, m)));
    } else if same(name.as_str(), "strikethrough") {
        push_inline(out, Inline::Strikethrough(lower_inline_list(&n.children, fd, m)));
    } else if same(name.as_str(), "superscript") {
        push_inline(out, Inline::Superscript(lower_inline_list(&n.children, fd, m)));
    } else if same(name.as_str(), "link") {
        let href = unescape_text(tag_attr_or_empty(tag, " destination=\"").as_str());
        push_inline(out, Inline::Link { href, content: lower_inline_list(&n.children, fd, m) });
    } else if same(name.as_str(), "image") {
        let src = unescape_text(tag_attr_or_empty(tag, " destination=\"").as_str());
        let content = lower_inline_list(&n.children, fd, m);
        let alt = inline_text(&content);
        push_inline(out, Inline::Image { src, alt, width: None });
    } else if same(name.as_str(), "footnote_reference") {
        let label = tag_attr_or_empty(tag, " label=\"");
        match find_def(fd, label.as_str()) {
            Some(k) => {
                if k < m.len() && !m[k] {
                    proof { lemma_count_false_update(m@, k as int); }
                    let m2 = marked(m, k);
                    let def: &'a Vec<XNode> = fd[k].1;
                    assert(defs_view(fd@)[k as int].1 == xnodes_v(def@));
                    let blocks = lower_blocks(def, fd, &m2);
                    push_inline(out, Inline::Footnote(blocks));
                } else {
                    assert(inlines_v(old(out)@) + seq![] =~= inlines_v(old(out)@));
                }
            },
            None => {
                assert(inlines_v(old(out)@) + seq![] =~= inlines_v(old(out)@));
            },
        }
    } else if same(name.as_str(), "html_inline") {
        assert(inlines_v(old(out)@) + seq![] =~= inlines_v(old(out)@));
    } else {
        collect_inlines(&n.children, fd, m, out);
    }
}

} // verus!
