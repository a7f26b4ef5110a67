//! The single-pass converter: the CommonMark tree straight to Typst markup.
//!
//! Every literal piece of text is emitted as a Typst string (`#"…"`) and all
//! structure goes through Typst functions (`#strong`, `#heading`, `#table`,
//! …), so the only characters ever escaped are those special inside a Typst
//! string literal. Footnote definitions are expanded at their references; a
//! reference met inside its own expansion is left out, so cycles end.

use vstd::prelude::*;
use crate::ir::Align;
use crate::parser::lower::{align_of, code_info, code_info_of, count_false, def_index, defs_in, defs_view, find_def, first_word, first_word_of, lemma_count_false_update, marked};
use crate::parser::xml::{attr, attr_or_empty, lemma_xnodes_v, lemma_xnodes_v_step, name_of, tag_attr, tag_attr_or_empty, tag_name, unescape, unescape_text, xnodes_v, XNode, XNodeV};
use crate::parser::lower::collect_defs;
use crate::parser::no_marks;
use crate::render::typst::{escaped, push_esc};
use crate::text::{all_ws, chars_of, decimal, decimal_string, is_blank, same, starts_with, str_starts_with};

verus! {

pub const RULE: &'static str = "#line(length: 100%, stroke: 0.5pt + luma(180))\n#v(0.3em)\n\n";

/// `, lang: "…"` for a code block's first info word, if it has one.
pub open spec fn lang_part(w: Option<Seq<char>>) -> Seq<char> {
    match w {
        Some(l) => ", lang: \""@ + escaped(l) + "\""@,
        None => seq![],
    }
}

pub open spec fn align_word(a: Align) -> Seq<char> {
    match a {
        Align::Center => "center"@,
        Align::Right => "right"@,
        _ => "left"@,
    }
}

/// One `word, ` per header cell, from its alignment.
pub open spec fn mk_aligns(cells: Seq<XNodeV>) -> Seq<char>
    decreases cells.len(),
{
    if cells.len() == 0 {
        seq![]
    } else {
        mk_aligns(cells.drop_last()) + align_word(align_of(attr(cells.last().tag, " align=\""@))) + ", "@
    }
}

pub open spec fn task_mark(n: XNodeV) -> Seq<char> {
    if attr(n.tag, " completed=\""@) == Some("true"@) { "\u{2611} "@ } else { "\u{2610} "@ }
}

/// The markup of one block element.
pub open spec fn mk_block(n: XNodeV, fd: Seq<(Seq<char>, Seq<XNodeV>)>, m: Seq<bool>) -> Seq<char>
    decreases count_false(m), n, 0nat,
{
    let nm = name_of(n.tag);
    if nm == "paragraph"@ {
        mk_inlines(n.children, fd, m) + "\n\n"@
    } else if nm == "heading"@ {
        "#heading(level: "@ + attr_or_empty(n.tag, " level=\""@) + ")["@ + mk_inlines(n.children, fd, m) + "]\n\n"@
    } else if nm == "code_block"@ {
        "#raw(block: true"@ + lang_part(first_word(code_info(n.tag))) + ", \""@ + escaped(unescape(n.text)) + "\")\n\n"@
    } else if nm == "block_quote"@ {
        "#quote(block: true)[\n"@ + mk_blocks(n.children, fd, m) + "]\n\n"@
    } else if nm == "list"@ {
        (if attr(n.tag, " type=\""@) == Some("ordered"@) { "#enum(\n"@ } else { "#list(\n"@ }) + mk_items(n.children, fd, m)
            + ")\n\n"@
    } else if nm == "table"@ {
        mk_table(n.children, fd, m)
    } else if nm == "thematic_break"@ {
        RULE@
    } else if nm == "footnote_definition"@ || nm == "html_block"@ {
        seq![]
    } else {
        mk_blocks(n.children, fd, m)
    }
}

pub open spec fn mk_blocks(s: Seq<XNodeV>, fd: Seq<(Seq<char>, Seq<XNodeV>)>, m: Seq<bool>) -> Seq<char>
    decreases count_false(m), s, 0nat,
{
    if s.len() == 0 { seq![] } else { mk_blocks(s.drop_last(), fd, m) + mk_block(s.last(), fd, m) }
}

pub open spec fn mk_items(s: Seq<XNodeV>, fd: Seq<(Seq<char>, Seq<XNodeV>)>, m: Seq<bool>) -> Seq<char>
    decreases count_false(m), s, 0nat,
{
    if s.len() == 0 { seq![] } else { mk_items(s.drop_last(), fd, m) + mk_item(s.last(), fd, m) }
}

/// A list item: `[…],` with a leading ballot box for a task item.
pub open spec fn mk_item(n: XNodeV, fd: Seq<(Seq<char>, Seq<XNodeV>)>, m: Seq<bool>) -> Seq<char>
    decreases count_false(m), n, 0nat,
{
    if name_of(n.tag) == "taskitem"@ {
        "  [#\""@ + escaped(task_mark(n)) + "\""@ + mk_item_body(n.children, fd, m) + "],\n"@
    } else {
        "  ["@ + mk_item_body(n.children, fd, m) + "],\n"@
    }
}

pub open spec fn mk_item_body(s: Seq<XNodeV>, fd: Seq<(Seq<char>, Seq<XNodeV>)>, m: Seq<bool>) -> Seq<char>
    decreases count_false(m), s, 0nat,
{
    if s.len() == 0 { seq![] } else { mk_item_body(s.drop_last(), fd, m) + mk_body_part(s.last(), fd, m) }
}

/// Inside a list item a paragraph is its bare inline run.
pub open spec fn mk_body_part(n: XNodeV, fd: Seq<(Seq<char>, Seq<XNodeV>)>, m: Seq<bool>) -> Seq<char>
    decreases count_false(m), n, 1nat,
{
    if name_of(n.tag) == "paragraph"@ { mk_inlines(n.children, fd, m) } else { mk_block(n, fd, m) }
}

/// A table: as many columns as the header row has cells, aligned as the
/// header cells say; the first row is the header.
/// The opening of a table: as many columns as the header row has cells,
/// aligned as the header cells say.
pub open spec fn mk_table_head(rows: Seq<XNodeV>) -> Seq<char> {
    let cols: nat = if rows.len() == 0 { 1 } else { rows[0].children.len() };
    "#table(\n"@ + "  columns: "@ + decimal(cols) + ",\n"@ + "  align: ("@ + (if rows.len() == 0 {
        "left, "@
    } else {
        mk_aligns(rows[0].children)
    }) + "),\n"@ + "  stroke: 0.5pt + luma(190),\n"@
}

/// A table; the first row is the header.
pub open spec fn mk_table(rows: Seq<XNodeV>, fd: Seq<(Seq<char>, Seq<XNodeV>)>, m: Seq<bool>) -> Seq<char>
    decreases count_false(m), rows, 1nat,
{
    mk_table_head(rows) + mk_rows(rows, fd, m) + ")\n\n"@
}

pub open spec fn mk_rows(s: Seq<XNodeV>, fd: Seq<(Seq<char>, Seq<XNodeV>)>, m: Seq<bool>) -> Seq<char>
    decreases count_false(m), s, 0nat,
{
    if s.len() == 0 { seq![] } else { mk_rows(s.drop_last(), fd, m) + mk_row(s.last(), s.len() == 1, fd, m) }
}

pub open spec fn mk_row(r: XNodeV, header: bool, fd: Seq<(Seq<char>, Seq<XNodeV>)>, m: Seq<bool>) -> Seq<char>
    decreases count_false(m), r, 0nat,
{
    if header {
        "  table.header("@ + mk_cells(r.children, fd, m) + "),\n"@
    } else {
        "  "@ + mk_cells(r.children, fd, m) + "\n"@
    }
}

pub open spec fn mk_cells(s: Seq<XNodeV>, fd: Seq<(Seq<char>, Seq<XNodeV>)>, m: Seq<bool>) -> Seq<char>
    decreases count_false(m), s, 0nat,
{
    if s.len() == 0 { seq![] } else { mk_cells(s.drop_last(), fd, m) + mk_cell(s.last(), fd, m) }
}

pub open spec fn mk_cell(c: XNodeV, fd: Seq<(Seq<char>, Seq<XNodeV>)>, m: Seq<bool>) -> Seq<char>
    decreases count_false(m), c, 0nat,
{
    "["@ + mk_inlines(c.children, fd, m) + "], "@
}

pub open spec fn is_web(url: Seq<char>) -> bool {
    starts_with(url, "http://"@) || starts_with(url, "https://"@)
}

/// The markup of one inline element. Remote images fall back to their alt
/// text; raw HTML is skipped; unknown elements give their children's markup.
pub open spec fn mk_inline(n: XNodeV, fd: Seq<(Seq<char>, Seq<XNodeV>)>, m: Seq<bool>) -> Seq<char>
    decreases count_false(m), n, 0nat,
{
    let nm = name_of(n.tag);
    if nm == "text"@ {
        "#\""@ + escaped(unescape(n.text)) + "\""@
    } else if nm == "softbreak"@ {
        "#\" \""@
    } else if nm == "linebreak"@ {
        "#linebreak()"@
    } else if nm == "code"@ {
        "#raw(\""@ + escaped(unescape(n.text)) + "\")"@
    } else if nm == "emph"@ {
        "#emph["@ + mk_inlines(n.children, fd, m) + "]"@
    } else if nm == "strong"@ {
        "#strong["@ + mk_inlines(n.children, fd, m) + "]"@
    } else if nm == "strikethrough"@ {
        "#strike["@ + mk_inlines(n.children, fd, m) + "]"@
    } else if nm == "superscript"@ {
        "#super["@ + mk_inlines(n.children, fd, m) + "]"@
    } else if nm == "link"@ {
        "#link(\""@ + escaped(unescape(attr_or_empty(n.tag, " destination=\""@))) + "\")["@ + mk_inlines(n.children, fd, m)
            + "]"@
    } else if nm == "image"@ {
        let url = unescape(attr_or_empty(n.tag, " destination=\""@));
        if is_web(url) { mk_inlines(n.children, fd, m) } else { "#image(\""@ + escaped(url) + "\")"@ }
    } else if nm == "footnote_reference"@ {
        let k = def_index(fd, attr_or_empty(n.tag, " label=\""@), fd.len() as int);
        if 0 <= k < m.len() && !m[k] {
            proof { lemma_count_false_update(m, k); }
            "#footnote["@ + mk_blocks(fd[k].1, fd, m.update(k, true)) + "]"@
        } else {
            seq![]
        }
    } else if nm == "html_inline"@ {
        seq![]
    } else {
        mk_inlines(n.children, fd, m)
    }
}

pub open spec fn mk_inlines(s: Seq<XNodeV>, fd: Seq<(Seq<char>, Seq<XNodeV>)>, m: Seq<bool>) -> Seq<char>
    decreases count_false(m), s, 0nat,
{
    if s.len() == 0 { seq![] } else { mk_inlines(s.drop_last(), fd, m) + mk_inline(s.last(), fd, m) }
}

// ---------------------------------------------------------------- exec

fn emit_block<'a>(n: &'a XNode, fd: &Vec<(String, &'a Vec<XNode>)>, m: &Vec<bool>, out: &mut String)
    ensures
        final(out)@ == old(out)@ + mk_block(n@, defs_view(fd@), m@),
    decreases count_false(m@), n, 0nat,
{
    let tag = n.tag.as_str();
    let name = tag_name(tag);
    let nm = name.as_str();
    if same(nm, "paragraph") {
        emit_inlines(&n.children, fd, m, out);
        out.append("\n\n");
    } else if same(nm, "heading") {
        out.append("#heading(level: ");
        let lv = tag_attr_or_empty(tag, " level=\"");
        out.append(lv.as_str());
        out.append(")[");
        emit_inlines(&n.children, fd, m, out);
        out.append("]\n\n");
    } else if same(nm, "code_block") {
        out.append("#raw(block: true");
        let info = code_info_of(tag);
        match first_word_of(info.as_str()) {
            Some(l) => {
                out.append(", lang: \"");
                push_esc(out, l.as_str());
                out.append("\"");
            },
            None => {},
        }
        out.append(", \"");
        let code = unescape_text(n.text.as_str());
        push_esc(out, code.as_str());
        out.append("\")\n\n");
    } else if same(nm, "block_quote") {
        out.append("#quote(block: true)[\n");
        emit_blocks(&n.children, fd, m, out);
        out.append("]\n\n");
    } else if same(nm, "list") {
        let ordered = match tag_attr(tag, " type=\"") {
            Some(t) => same(t.as_str(), "ordered"),
            None => false,
        };
        if ordered {
            out.append("#enum(\n");
        } else {
            out.append("#list(\n");
        }
        emit_items(&n.children, fd, m, out);
        out.append(")\n\n");
    } else if same(nm, "table") {
        emit_table(&n.children, fd, m, out);
    } else if same(nm, "thematic_break") {
        out.append(RULE);
    } else if same(nm, "footnote_definition") || same(nm, "html_block") {
        assert(old(out)@ + seq![] =~= old(out)@);
    } else {
        emit_blocks(&n.children, fd, m, out);
    }
}

fn emit_blocks<'a>(v: &'a Vec<XNode>, fd: &Vec<(String, &'a Vec<XNode>)>, m: &Vec<bool>, out: &mut String)
    ensures
        final(out)@ == old(out)@ + mk_blocks(xnodes_v(v@), defs_view(fd@), m@),
    decreases count_false(m@), v, 0nat,
{
    let mut i: usize = 0;
    while i < v.len()
        invariant
            i <= v@.len(),
            out@ == old(out)@ + mk_blocks(xnodes_v(v@.take(i as int)), defs_view(fd@), m@),
        decreases v.len() - i,
    {
        proof { lemma_xnodes_v_step(v@, i as int); }
        let ghost xs = xnodes_v(v@.take(i + 1));
        assert(xs.drop_last() =~= xnodes_v(v@.take(i as int)));
        emit_block(&v[i], fd, m, out);
        assert(out@ =~= old(out)@ + mk_blocks(xs, defs_view(fd@), m@));
        i = i + 1;
    }
    assert(v@.take(i as int) =~= v@);
}

fn emit_items<'a>(v: &'a Vec<XNode>, fd: &Vec<(String, &'a Vec<XNode>)>, m: &Vec<bool>, out: &mut String)
    ensures
        final(out)@ == old(out)@ + mk_items(xnodes_v(v@), defs_view(fd@), m@),
    decreases count_false(m@), v, 0nat,
{
    let mut i: usize = 0;
    while i < v.len()
        invariant
            i <= v@.len(),
            out@ == old(out)@ + mk_items(xnodes_v(v@.take(i as int)), defs_view(fd@), m@),
        decreases v.len() - i,
    {
        proof { lemma_xnodes_v_step(v@, i as int); }
        let ghost xs = xnodes_v(v@.take(i + 1));
        assert(xs.drop_last() =~= xnodes_v(v@.take(i as int)));
        emit_item(&v[i], fd, m, out);
        assert(out@ =~= old(out)@ + mk_items(xs, defs_view(fd@), m@));
        i = i + 1;
    }
    assert(v@.take(i as int) =~= v@);
}

fn emit_item<'a>(n: &'a XNode, fd: &Vec<(String, &'a Vec<XNode>)>, m: &Vec<bool>, out: &mut String)
    ensures
        final(out)@ == old(out)@ + mk_item(n@, defs_view(fd@), m@),
    decreases count_false(m@), n, 0nat,
{
    let tag = n.tag.as_str();
    let name = tag_name(tag);
    if same(name.as_str(), "taskitem") {
        out.append("  [#\"");
        let done = match tag_attr(tag, " completed=\"") {
            Some(c) => same(c.as_str(), "true"),
            None => false,
        };
        if done {
            push_esc(out, "\u{2611} ");
        } else {
            push_esc(out, "\u{2610} ");
        }
        out.append("\"");
    } else {
        out.append("  [");
    }
    emit_item_body(&n.children, fd, m, out);
    out.append("],\n");
}

fn emit_item_body<'a>(v: &'a Vec<XNode>, fd: &Vec<(String, &'a Vec<XNode>)>, m: &Vec<bool>, out: &mut String)
    ensures
        final(out)@ == old(out)@ + mk_item_body(xnodes_v(v@), defs_view(fd@), m@),
    decreases count_false(m@), v, 0nat,
{
    let mut i: usize = 0;
    while i < v.len()
        invariant
            i <= v@.len(),
            out@ == old(out)@ + mk_item_body(xnodes_v(v@.take(i as int)), defs_view(fd@), m@),
        decreases v.len() - i,
    {
        proof { lemma_xnodes_v_step(v@, i as int); }
        let ghost xs = xnodes_v(v@.take(i + 1));
        assert(xs.drop_last() =~= xnodes_v(v@.take(i as int)));
        emit_body_part(&v[i], fd, m, out);
        assert(out@ =~= old(out)@ + mk_item_body(xs, defs_view(fd@), m@));
        i = i + 1;
    }
    assert(v@.take(i as int) =~= v@);
}

fn emit_body_part<'a>(n: &'a XNode, fd: &Vec<(String, &'a Vec<XNode>)>, m: &Vec<bool>, out: &mut String)
    ensures
        final(out)@ == old(out)@ + mk_body_part(n@, defs_view(fd@), m@),
    decreases count_false(m@), n, 1nat,
{
    let name = tag_name(n.tag.as_str());
    if same(name.as_str(), "paragraph") {
        emit_inlines(&n.children, fd, m, out);
    } else {
        emit_block(n, fd, m, out);
    }
}

fn emit_aligns(cells: &Vec<XNode>, out: &mut String)
    ensures
        final(out)@ == old(out)@ + mk_aligns(xnodes_v(cells@)),
{
    let mut i: usize = 0;
    while i < cells.len()
        invariant
            i <= cells@.len(),
            out@ == old(out)@ + mk_aligns(xnodes_v(cells@.take(i as int))),
        decreases cells.len() - i,
    {
        proof { lemma_xnodes_v_step(cells@, i as int); }
        let ghost xs = xnodes_v(cells@.take(i + 1));
        assert(xs.drop_last() =~= xnodes_v(cells@.take(i as int)));
        let a = crate::parser::lower::align_from(&tag_attr(cells[i].tag.as_str(), " align=\""));
        match a {
            Align::Center => out.append("center"),
            Align::Right => out.append("right"),
            _ => out.append("left"),
        }
        out.append(", ");
        assert(out@ =~= old(out)@ + mk_aligns(xs));
        i = i + 1;
    }
    assert(cells@.take(i as int) =~= cells@);
}

fn emit_table_head(rows: &Vec<XNode>, out: &mut String)
    ensures
        final(out)@ == old(out)@ + mk_table_head(xnodes_v(rows@)),
{
    proof { lemma_xnodes_v(rows@); }
    out.append("#table(\n");
    out.append("  columns: ");
    let cols: usize = if rows.len() == 0 { 1 } else { rows[0].children.len() };
    proof {
        if rows@.len() > 0 {
            lemma_xnodes_v(rows@[0].children@);
        }
    }
    let d = decimal_string(cols as u64);
    out.append(d.as_str());
    out.append(",\n");
    out.append("  align: (");
    if rows.len() == 0 {
        out.append("left, ");
    } else {
        emit_aligns(&rows[0].children, out);
    }
    out.append("),\n");
    out.append("  stroke: 0.5pt + luma(190),\n");
}

fn emit_table<'a>(rows: &'a Vec<XNode>, fd: &Vec<(String, &'a Vec<XNode>)>, m: &Vec<bool>, out: &mut String)
    ensures
        final(out)@ == old(out)@ + mk_table(xnodes_v(rows@), defs_view(fd@), m@),
    decreases count_false(m@), rows, 1nat,
{
    emit_table_head(rows, out);
    emit_rows(rows, fd, m, out);
    out.append(")\n\n");
}

fn emit_rows<'a>(v: &'a Vec<XNode>, fd: &Vec<(String, &'a Vec<XNode>)>, m: &Vec<bool>, out: &mut String)
    ensures
        final(out)@ == old(out)@ + mk_rows(xnodes_v(v@), defs_view(fd@), m@),
    decreases count_false(m@), v, 0nat,
{
    let mut i: usize = 0;
    while i < v.len()
        invariant
            i <= v@.len(),
            out@ == old(out)@ + mk_rows(xnodes_v(v@.take(i as int)), defs_view(fd@), m@),
        decreases v.len() - i,
    {
        proof {
            lemma_xnodes_v_step(v@, i as int);
            lemma_xnodes_v(v@.take(i + 1));
        }
        let ghost xs = xnodes_v(v@.take(i + 1));
        assert(xs.drop_last() =~= xnodes_v(v@.take(i as int)));
        emit_row(&v[i], i == 0, fd, m, out);
        assert(out@ =~= old(out)@ + mk_rows(xs, defs_view(fd@), m@));
        i = i + 1;
    }
    assert(v@.take(i as int) =~= v@);
}

fn emit_row<'a>(r: &'a XNode, header: bool, fd: &Vec<(String, &'a Vec<XNode>)>, m: &Vec<bool>, out: &mut String)
    ensures
        final(out)@ == old(out)@ + mk_row(r@, header, defs_view(fd@), m@),
    decreases count_false(m@), r, 0nat,
{
    if header {
        out.append("  table.header(");
        emit_cells(&r.children, fd, m, out);
        out.append("),\n");
    } else {
        out.append("  ");
        emit_cells(&r.children, fd, m, out);
        out.append("\n");
    }
}

fn emit_cells<'a>(v: &'a Vec<XNode>, fd: &Vec<(String, &'a Vec<XNode>)>, m: &Vec<bool>, out: &mut String)
    ensures
        final(out)@ == old(out)@ + mk_cells(xnodes_v(v@), defs_view(fd@), m@),
    decreases count_false(m@), v, 0nat,
{
    let mut i: usize = 0;
    while i < v.len()
        invariant
            i <= v@.len(),
            out@ == old(out)@ + mk_cells(xnodes_v(v@.take(i as int)), defs_view(fd@), m@),
        decreases v.len() - i,
    {
        proof { lemma_xnodes_v_step(v@, i as int); }
        let ghost xs = xnodes_v(v@.take(i + 1));
        assert(xs.drop_last() =~= xnodes_v(v@.take(i as int)));
        emit_cell(&v[i], fd, m, out);
        assert(out@ =~= old(out)@ + mk_cells(xs, defs_view(fd@), m@));
        i = i + 1;
    }
    assert(v@.take(i as int) =~= v@);
}

fn emit_cell<'a>(c: &'a XNode, fd: &Vec<(String, &'a Vec<XNode>)>, m: &Vec<bool>, out: &mut String)
    ensures
        final(out)@ == old(out)@ + mk_cell(c@, defs_view(fd@), m@),
    decreases count_false(m@), c, 0nat,
{
    out.append("[");
    emit_inlines(&c.children, fd, m, out);
    out.append("], ");
}

fn emit_inline<'a>(n: &'a XNode, fd: &Vec<(String, &'a Vec<XNode>)>, m: &Vec<bool>, out: &mut String)
    ensures
        final(out)@ == old(out)@ + mk_inline(n@, defs_view(fd@), m@),
    decreases count_false(m@), n, 0nat,
{
    let tag = n.tag.as_str();
    let name = tag_name(tag);
    let nm = name.as_str();
    if same(nm, "text") {
        out.append("#\"");
        let t = unescape_text(n.text.as_str());
        push_esc(out, t.as_str());
        out.append("\"");
    } else if same(nm, "softbreak") {
        out.append("#\" \"");
    } else if same(nm, "linebreak") {
        out.append("#linebreak()");
    } else if same(nm, "code") {
        out.append("#raw(\"");
        let t = unescape_text(n.text.as_str());
        push_esc(out, t.as_str());
        out.append("\")");
    } else if same(nm, "emph") {
        out.append("#emph[");
        emit_inlines(&n.children, fd, m, out);
        out.append("]");
    } else if same(nm, "strong") {
        out.append("#strong[");
        emit_inlines(&n.children, fd, m, out);
        out.append("]");
    } else if same(nm, "strikethrough") {
        out.append("#strike[");
        emit_inlines(&n.children, fd, m, out);
        out.append("]");
    } else if same(nm, "superscript") {
        out.append("#super[");
        emit_inlines(&n.children, fd, m, out);
        out.append("]");
    } else if same(nm, "link") {
        out.append("#link(\"");
        let href = unescape_text(tag_attr_or_empty(tag, " destination=\"").as_str());
        push_esc(out, href.as_str());
        out.append("\")[");
        emit_inlines(&n.children, fd, m, out);
        out.append("]");
    } else if same(nm, "image") {
        let url = unescape_text(tag_attr_or_empty(tag, " destination=\"").as_str());
        if str_starts_with(url.as_str(), "http://") || str_starts_with(url.as_str(), "https://") {
            emit_inlines(&n.children, fd, m, out);
        } else {
            out.append("#image(\"");
            push_esc(out, url.as_str());
            out.append("\")");
        }
    } else if same(nm, "footnote_reference") {
        let label = tag_attr_or_empty(tag, " label=\"");
        match find_def(fd, label.as_str()) {
            Some(k) => {
                if k < m.len() && !m[k] {
                    proof { lemma_count_false_update(m@, k as int); }
                    let m2 = marked(m, k);
                    let def: &'a Vec<XNode> = fd[k].1;
                    assert(defs_view(fd@)[k as int].1 == xnodes_v(def@));
                    out.append("#footnote[");
                    emit_blocks(def, fd, &m2, out);
                    out.append("]");
                } else {
                    assert(old(out)@ + seq![] =~= old(out)@);
                }
            },
            None => {
                assert(old(out)@ + seq![] =~= old(out)@);
            },
        }
    } else if same(nm, "html_inline") {
        assert(old(out)@ + seq![] =~= old(out)@);
    } else {
        emit_inlines(&n.children, fd, m, out);
    }
}

fn emit_inlines<'a>(v: &'a Vec<XNode>, fd: &Vec<(String, &'a Vec<XNode>)>, m: &Vec<bool>, out: &mut String)
    ensures
        final(out)@ == old(out)@ + mk_inlines(xnodes_v(v@), defs_view(fd@), m@),
    decreases count_false(m@), v, 0nat,
{
    let mut i: usize = 0;
    while i < v.len()
        invariant
            i <= v@.len(),
            out@ == old(out)@ + mk_inlines(xnodes_v(v@.take(i as int)), defs_view(fd@), m@),
        decreases v.len() - i,
    {
        proof { lemma_xnodes_v_step(v@, i as int); }
        let ghost xs = xnodes_v(v@.take(i + 1));
        assert(xs.drop_last() =~= xnodes_v(v@.take(i as int)));
        emit_inline(&v[i], fd, m, out);
        assert(out@ =~= old(out)@ + mk_inlines(xs, defs_view(fd@), m@));
        i = i + 1;
    }
    assert(v@.take(i as int) =~= v@);
}

// ---------------------------------------------------------------- document

/// The markup of a document's body: its top-level blocks, with its footnote
/// definitions at hand.
pub open spec fn mk_body(root: XNodeV) -> Seq<char> {
    mk_blocks(root.children, defs_in(root), no_marks(defs_in(root).len()))
}

/// Render the body of a document (everything below the preamble and title)
/// from the root of its CommonMark tree.
pub fn render_body(root: &XNode) -> (s: String)
    ensures
        s@ == mk_body(root@),
{
    let mut fd: Vec<(String, &Vec<XNode>)> = Vec::new();
    collect_defs(root, &mut fd);
    assert(defs_view(Seq::<(String, &Vec<XNode>)>::empty()) + defs_in(root@) =~= defs_in(root@));
    let mut m: Vec<bool> = Vec::new();
    let mut i: usize = 0;
    while i < fd.len()
        invariant
            i <= fd@.len(),
            m@ == no_marks(i as nat),
        decreases fd.len() - i,
    {
        m.push(false);
        assert(m@ =~= no_marks((i + 1) as nat));
        i = i + 1;
    }
    assert(defs_view(fd@).len() == fd@.len());
    let mut out = String::new();
    emit_blocks(&root.children, &fd, &m, &mut out);
    assert(out@ =~= mk_body(root@));
    out
}

/// The literal text an element holds itself: that of text and code spans.
pub open spec fn own_text(n: XNodeV) -> Seq<char> {
    if name_of(n.tag) == "text"@ || name_of(n.tag) == "code"@ { unescape(n.text) } else { seq![] }
}

/// The text and code literals of an element and its descendants, in
/// document order.
pub open spec fn plain_of(n: XNodeV) -> Seq<char>
    decreases n, 1nat,
{
    own_text(n) + plain_all(n.children)
}

pub open spec fn plain_all(s: Seq<XNodeV>) -> Seq<char>
    decreases s, 0nat,
{
    if s.len() == 0 { seq![] } else { plain_all(s.drop_last()) + plain_of(s.last()) }
}

/// The text of the first heading, in document order, whose text is not
/// blank.
pub open spec fn heading_in(n: XNodeV) -> Option<Seq<char>>
    decreases n, 1nat,
{
    if name_of(n.tag) == "heading"@ && !is_blank(plain_of(n)) {
        Some(plain_of(n))
    } else {
        heading_in_all(n.children)
    }
}

pub open spec fn heading_in_all(s: Seq<XNodeV>) -> Option<Seq<char>>
    decreases s, 0nat,
{
    if s.len() == 0 {
        None
    } else {
        match heading_in_all(s.drop_last()) {
            Some(t) => Some(t),
            None => heading_in(s.last()),
        }
    }
}

fn plain_text(n: &XNode, out: &mut String)
    ensures
        final(out)@ == old(out)@ + plain_of(n@),
    decreases n, 1nat,
{
    let name = tag_name(n.tag.as_str());
    if same(name.as_str(), "text") || same(name.as_str(), "code") {
        let t = unescape_text(n.text.as_str());
        out.append(t.as_str());
    }
    plain_texts(&n.children, out);
}

fn plain_texts(v: &Vec<XNode>, out: &mut String)
    ensures
        final(out)@ == old(out)@ + plain_all(xnodes_v(v@)),
    decreases v, 0nat,
{
    let mut i: usize = 0;
    while i < v.len()
        invariant
            i <= v@.len(),
            out@ == old(out)@ + plain_all(xnodes_v(v@.take(i as int))),
        decreases v.len() - i,
    {
        proof { lemma_xnodes_v_step(v@, i as int); }
        let ghost xs = xnodes_v(v@.take(i + 1));
        assert(xs.drop_last() =~= xnodes_v(v@.take(i as int)));
        plain_text(&v[i], out);
        assert(out@ =~= old(out)@ + plain_all(xs));
        i = i + 1;
    }
    assert(v@.take(i as int) =~= v@);
}

fn first_heading_in(n: &XNode) -> (r: Option<String>)
    ensures
        match r {
            Some(t) => heading_in(n@) == Some(t@),
            None => heading_in(n@) is None,
        },
    decreases n, 1nat,
{
    let name = tag_name(n.tag.as_str());
    if same(name.as_str(), "heading") {
        let mut t = String::new();
        plain_text(n, &mut t);
        let v = chars_of(t.as_str());
        assert(v@.subrange(0, v@.len() as int) =~= v@);
        if !all_ws(&v, 0, v.len()) {
            return Some(t);
        }
    }
    first_heading_among(&n.children)
}

fn first_heading_among(v: &Vec<XNode>) -> (r: Option<String>)
    ensures
        match r {
            Some(t) => heading_in_all(xnodes_v(v@)) == Some(t@),
            None => heading_in_all(xnodes_v(v@)) is None,
        },
    decreases v, 0nat,
{
    let mut i: usize = 0;
    while i < v.len()
        invariant
            i <= v@.len(),
            heading_in_all(xnodes_v(v@.take(i as int))) is None,
        decreases v.len() - i,
    {
        proof { lemma_xnodes_v_step(v@, i as int); }
        let ghost xs = xnodes_v(v@.take(i + 1));
        assert(xs.drop_last() =~= xnodes_v(v@.take(i as int)));
        match first_heading_in(&v[i]) {
            Some(t) => {
                proof {
                    lemma_xnodes_v(v@);
                    lemma_xnodes_v(v@.take(i + 1));
                    assert(xnodes_v(v@).take(i + 1) =~= xs);
                    lemma_heading_prefix(xnodes_v(v@), i + 1);
                }
                return Some(t);
            },
            None => {},
        }
        i = i + 1;
    }
    assert(v@.take(i as int) =~= v@);
    None
}

/// A heading found among the first `k` elements is the first one overall.
proof fn lemma_heading_prefix(s: Seq<XNodeV>, k: int)
    requires
        0 <= k <= s.len(),
        heading_in_all(s.take(k)) is Some,
    ensures
        heading_in_all(s) == heading_in_all(s.take(k)),
    decreases s.len(),
{
    if k < s.len() {
        assert(s.drop_last().take(k) =~= s.take(k));
        lemma_heading_prefix(s.drop_last(), k);
    } else {
        assert(s.take(k) =~= s);
    }
}

/// The text of the first non-blank heading under `root`: the fallback title.
pub fn first_heading_text(root: &XNode) -> (r: Option<String>)
    ensures
        match r {
            Some(t) => heading_in(root@) == Some(t@),
            None => heading_in(root@) is None,
        },
{
    first_heading_in(root)
}

} // verus!
