//! Why the HTML table of contents links where the headings are: the
//! contents and the body hand out heading anchors from the same sequence of
//! heading texts, as long as every heading stands at the top level.

use vstd::prelude::*;
use crate::ir::{plain_inlines, BlockV, DefV, InlineV, ItemV};
use crate::render::html::{anchor_for, put, h_block, h_blocks, h_cells, h_defs, h_inline, h_inlines, h_item_body, h_items, h_rows, toc_fold, HS};
use crate::render::typst::Env;

verus! {

/// No heading inside this block, at any depth of nested blocks.
pub open spec fn hf_block(b: BlockV) -> bool
    decreases b, 0nat,
{
    match b {
        BlockV::Heading { .. } => false,
        BlockV::BlockQuote(bs) => hf_blocks(bs),
        BlockV::List { items, .. } => hf_items(items),
        BlockV::DefinitionList(d) => hf_defs(d),
        BlockV::Admonition { blocks, .. } => hf_blocks(blocks),
        _ => true,
    }
}

pub open spec fn hf_blocks(s: Seq<BlockV>) -> bool
    decreases s, 0nat,
{
    s.len() == 0 || (hf_blocks(s.drop_last()) && hf_block(s.last()))
}

pub open spec fn hf_items(s: Seq<ItemV>) -> bool
    decreases s, 0nat,
{
    s.len() == 0 || (hf_items(s.drop_last()) && hf_blocks(s.last().blocks))
}

pub open spec fn hf_defs(s: Seq<DefV>) -> bool
    decreases s, 0nat,
{
    s.len() == 0 || (hf_defs(s.drop_last()) && hf_blocks(s.last().details))
}

/// Every heading of the document is one of its top-level blocks.
pub open spec fn headings_on_top(blocks: Seq<BlockV>) -> bool {
    forall|i: int| 0 <= i < blocks.len() ==> (#[trigger] blocks[i] is Heading || hf_block(blocks[i]))
}

proof fn lemma_inline_slugs(i: InlineV, env: Env, st: HS)
    ensures
        h_inline(i, env, st).slugs == st.slugs,
    decreases i, 1nat,
{
    match i {
        InlineV::Emph(c) => {
            lemma_inlines_slugs(c, env, put(st, "<em>"@));
            assert(h_inline(i, env, st) == put(h_inlines(c, env, put(st, "<em>"@)), "</em>"@));
        },
        InlineV::Strong(c) => {
            lemma_inlines_slugs(c, env, put(st, "<strong>"@));
            assert(h_inline(i, env, st) == put(h_inlines(c, env, put(st, "<strong>"@)), "</strong>"@));
        },
        InlineV::Strikethrough(c) => {
            lemma_inlines_slugs(c, env, put(st, "<del>"@));
            assert(h_inline(i, env, st) == put(h_inlines(c, env, put(st, "<del>"@)), "</del>"@));
        },
        InlineV::Superscript(c) => {
            lemma_inlines_slugs(c, env, put(st, "<sup>"@));
            assert(h_inline(i, env, st) == put(h_inlines(c, env, put(st, "<sup>"@)), "</sup>"@));
        },
        InlineV::Link { href, content } => {
            let o = put(st, "<a href=\""@ + crate::render::html::escaped(href) + "\">"@);
            lemma_inlines_slugs(content, env, o);
            assert(h_inline(i, env, st) == put(h_inlines(content, env, o), "</a>"@));
        },
        _ => {},
    }
}

proof fn lemma_inlines_slugs(s: Seq<InlineV>, env: Env, st: HS)
    ensures
        h_inlines(s, env, st).slugs == st.slugs,
    decreases s, 0nat,
{
    if s.len() > 0 {
        lemma_inlines_slugs(s.drop_last(), env, st);
        lemma_inline_slugs(s.last(), env, h_inlines(s.drop_last(), env, st));
    }
}

proof fn lemma_cells_slugs(align: Seq<crate::ir::Align>, cells: Seq<Seq<InlineV>>, tag: Seq<char>, env: Env, st: HS)
    ensures
        h_cells(align, cells, tag, env, st).slugs == st.slugs,
    decreases cells.len(),
{
    if cells.len() > 0 {
        lemma_cells_slugs(align, cells.drop_last(), tag, env, st);
        let k = cells.len() - 1;
        let prev = h_cells(align, cells.drop_last(), tag, env, st);
        let o = put(prev, "<"@ + tag + crate::render::html::cell_style(align, k) + ">"@);
        lemma_inlines_slugs(cells.last(), env, o);
        assert(h_cells(align, cells, tag, env, st) == put(h_inlines(cells.last(), env, o), "</"@ + tag + ">"@));
    }
}

proof fn lemma_rows_slugs(align: Seq<crate::ir::Align>, rows: Seq<Seq<Seq<InlineV>>>, env: Env, st: HS)
    ensures
        h_rows(align, rows, env, st).slugs == st.slugs,
    decreases rows.len(),
{
    if rows.len() > 0 {
        lemma_rows_slugs(align, rows.drop_last(), env, st);
        let o = put(h_rows(align, rows.drop_last(), env, st), "<tr>"@);
        lemma_cells_slugs(align, rows.last(), "td"@, env, o);
        assert(h_rows(align, rows, env, st) == put(h_cells(align, rows.last(), "td"@, env, o), "</tr>\n"@));
    }
}

proof fn lemma_block_slugs(b: BlockV, env: Env, st: HS)
    requires
        hf_block(b),
    ensures
        h_block(b, env, st).slugs == st.slugs,
    decreases b, 1nat,
{
    match b {
        BlockV::Paragraph(c) => {
            lemma_inlines_slugs(c, env, put(st, "<p>"@));
            assert(h_block(b, env, st) == put(h_inlines(c, env, put(st, "<p>"@)), "</p>\n"@));
        },
        BlockV::BlockQuote(bs) => {
            lemma_blocks_slugs(bs, env, put(st, "<blockquote>\n"@));
            assert(h_block(b, env, st) == put(h_blocks(bs, env, put(st, "<blockquote>\n"@)), "</blockquote>\n"@));
        },
        BlockV::List { ordered, items } => {
            let open = if ordered { "<ol>\n"@ } else { "<ul>\n"@ };
            let close = if ordered { "</ol>\n"@ } else { "</ul>\n"@ };
            lemma_items_slugs(items, env, put(st, open));
            assert(h_block(b, env, st) == put(h_items(items, env, put(st, open)), close));
        },
        BlockV::Table { align, head, rows } => {
            let st1 = put(st, "<table>\n"@);
            lemma_cells_slugs(align, head, "th"@, env, put(st1, "<thead>\n<tr>"@));
            let st2 = if head.len() > 0 {
                put(h_cells(align, head, "th"@, env, put(st1, "<thead>\n<tr>"@)), "</tr>\n</thead>\n"@)
            } else {
                st1
            };
            lemma_rows_slugs(align, rows, env, put(st2, "<tbody>\n"@));
            assert(h_block(b, env, st) == put(h_rows(align, rows, env, put(st2, "<tbody>\n"@)), "</tbody>\n</table>\n"@));
        },
        BlockV::DefinitionList(d) => {
            lemma_defs_slugs(d, env, put(st, "<dl>\n"@));
            assert(h_block(b, env, st) == put(h_defs(d, env, put(st, "<dl>\n"@)), "</dl>\n"@));
        },
        BlockV::Admonition { kind, title, blocks } => {
            let o = put(
                st,
                "<div class=\"admonition "@ + crate::render::html::kind_class(kind) + "\">\n<p class=\"admonition-title\">"@
                    + crate::render::html::escaped(title) + "</p>\n"@,
            );
            lemma_blocks_slugs(blocks, env, o);
            assert(h_block(b, env, st) == put(h_blocks(blocks, env, o), "</div>\n"@));
        },
        _ => {},
    }
}

proof fn lemma_blocks_slugs(s: Seq<BlockV>, env: Env, st: HS)
    requires
        hf_blocks(s),
    ensures
        h_blocks(s, env, st).slugs == st.slugs,
    decreases s, 0nat,
{
    if s.len() > 0 {
        lemma_blocks_slugs(s.drop_last(), env, st);
        lemma_block_slugs(s.last(), env, h_blocks(s.drop_last(), env, st));
    }
}

proof fn lemma_item_body_slugs(bs: Seq<BlockV>, total: nat, env: Env, st: HS)
    requires
        hf_blocks(bs),
    ensures
        h_item_body(bs, total, env, st).slugs == st.slugs,
    decreases bs, 0nat,
{
    if bs.len() > 0 {
        lemma_item_body_slugs(bs.drop_last(), total, env, st);
        let prev = h_item_body(bs.drop_last(), total, env, st);
        let k = bs.len() - 1;
        let before = if k > 0 { put(prev, "\n"@) } else { prev };
        match bs.last() {
            BlockV::Paragraph(c) => {
                if total == 1 {
                    lemma_inlines_slugs(c, env, prev);
                } else {
                    lemma_block_slugs(bs.last(), env, before);
                }
            },
            _ => lemma_block_slugs(bs.last(), env, before),
        }
    }
}

proof fn lemma_items_slugs(items: Seq<ItemV>, env: Env, st: HS)
    requires
        hf_items(items),
    ensures
        h_items(items, env, st).slugs == st.slugs,
    decreases items, 0nat,
{
    if items.len() > 0 {
        lemma_items_slugs(items.drop_last(), env, st);
        let it = items.last();
        let o = put(h_items(items.drop_last(), env, st), "<li>"@ + crate::render::html::checkbox(it.task));
        lemma_item_body_slugs(it.blocks, it.blocks.len(), env, o);
        assert(h_items(items, env, st) == put(h_item_body(it.blocks, it.blocks.len(), env, o), "</li>\n"@));
    }
}

proof fn lemma_defs_slugs(d: Seq<DefV>, env: Env, st: HS)
    requires
        hf_defs(d),
    ensures
        h_defs(d, env, st).slugs == st.slugs,
    decreases d, 0nat,
{
    if d.len() > 0 {
        lemma_defs_slugs(d.drop_last(), env, st);
        let prev = h_defs(d.drop_last(), env, st);
        let p1 = put(prev, "<dt>"@);
        lemma_inlines_slugs(d.last().term, env, p1);
        let t = put(h_inlines(d.last().term, env, p1), "</dt>\n<dd>\n"@);
        lemma_blocks_slugs(d.last().details, env, t);
        assert(h_defs(d, env, st) == put(h_blocks(d.last().details, env, t), "</dd>\n"@));
    }
}

/// After any prefix of the blocks, the body has handed out heading anchors
/// from the same counts as the table of contents.
proof fn lemma_same_counts(blocks: Seq<BlockV>, env: Env, st: HS, k: int)
    requires
        headings_on_top(blocks),
        st.slugs == Seq::<Seq<char>>::empty(),
        0 <= k <= blocks.len(),
    ensures
        h_blocks(blocks.take(k), env, st).slugs == toc_fold(blocks.take(k)).1,
    decreases k,
{
    if k == 0 {
        assert(blocks.take(0) =~= Seq::<BlockV>::empty());
    } else {
        lemma_same_counts(blocks, env, st, k - 1);
        let s = blocks.take(k);
        assert(s.drop_last() =~= blocks.take(k - 1));
        assert(s.last() == blocks[k - 1]);
        let prev = h_blocks(blocks.take(k - 1), env, st);
        match blocks[k - 1] {
            BlockV::Heading { level, content } => {
                let text = plain_inlines(content);
                let st1 = HS { slugs: crate::render::html::slugs_after(prev.slugs, text), ..prev };
                let o = put(st1, crate::render::html::heading_open(crate::render::html::clamp_level(level), anchor_for(prev.slugs, text)));
                lemma_inlines_slugs(content, env, o);
                assert(h_block(blocks[k - 1], env, prev) == put(
                    h_inlines(content, env, o),
                    "</h"@ + crate::text::decimal(crate::render::html::clamp_level(level)) + ">\n"@,
                ));
            },
            _ => {
                assert(blocks[k - 1] is Heading || hf_block(blocks[k - 1]));
                lemma_block_slugs(blocks[k - 1], env, prev);
            },
        }
    }
}

/// Where every heading stands at the top level, each heading's link in the
/// table of contents is the anchor the heading gets in the body, duplicate
/// texts included (`x`, `x-2`, …).
pub proof fn law_toc_links_match_anchors(blocks: Seq<BlockV>, env: Env, st: HS, k: int)
    requires
        headings_on_top(blocks),
        st.slugs == Seq::<Seq<char>>::empty(),
        0 <= k < blocks.len(),
        blocks[k] is Heading,
    ensures
        anchor_for(toc_fold(blocks.take(k)).1, plain_inlines(blocks[k]->content)) == anchor_for(
            h_blocks(blocks.take(k), env, st).slugs,
            plain_inlines(blocks[k]->content),
        ),
{
    lemma_same_counts(blocks, env, st, k);
}

} // verus!
