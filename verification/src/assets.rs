//! The image references of a document, in document order: the list the
//! caller probes on disk before a render.

use vstd::prelude::*;
use crate::ir::{
    blocks_v, cells_v, defs_v, inlines_v, items_v, lemma_blocks_v_step, lemma_cells_v_step, lemma_defs_v_step,
    lemma_inlines_v_step, lemma_items_v_step, lemma_rows_v_step, rows_v, Block, BlockV, DefV, DefinitionItem, Document,
    Inline, InlineV, ItemV, ListItem,
};

verus! {

pub open spec fn texts(v: Seq<String>) -> Seq<Seq<char>> {
    v.map_values(|s: String| s@)
}

pub open spec fn im_inline(i: InlineV) -> Seq<Seq<char>>
    decreases i,
{
    match i {
        InlineV::Image { src, .. } => seq![src],
        InlineV::Footnote(bs) => im_blocks(bs),
        InlineV::Emph(c) => im_inlines(c),
        InlineV::Strong(c) => im_inlines(c),
        InlineV::Strikethrough(c) => im_inlines(c),
        InlineV::Superscript(c) => im_inlines(c),
        InlineV::Link { content, .. } => im_inlines(content),
        _ => seq![],
    }
}

pub open spec fn im_inlines(s: Seq<InlineV>) -> Seq<Seq<char>>
    decreases s,
{
    if s.len() == 0 { seq![] } else { im_inlines(s.drop_last()) + im_inline(s.last()) }
}

pub open spec fn im_cells(s: Seq<Seq<InlineV>>) -> Seq<Seq<char>>
    decreases s,
{
    if s.len() == 0 { seq![] } else { im_cells(s.drop_last()) + im_inlines(s.last()) }
}

pub open spec fn im_rows(s: Seq<Seq<Seq<InlineV>>>) -> Seq<Seq<char>>
    decreases s,
{
    if s.len() == 0 { seq![] } else { im_rows(s.drop_last()) + im_cells(s.last()) }
}

pub open spec fn im_items(s: Seq<ItemV>) -> Seq<Seq<char>>
    decreases s,
{
    if s.len() == 0 { seq![] } else { im_items(s.drop_last()) + im_blocks(s.last().blocks) }
}

pub open spec fn im_defs(s: Seq<DefV>) -> Seq<Seq<char>>
    decreases s,
{
    if s.len() == 0 { seq![] } else { im_defs(s.drop_last()) + im_inlines(s.last().term) + im_blocks(s.last().details) }
}

/// The image references in one block, footnotes included, in order.
pub open spec fn im_block(b: BlockV) -> Seq<Seq<char>>
    decreases b,
{
    match b {
        BlockV::Heading { content, .. } => im_inlines(content),
        BlockV::Paragraph(c) => im_inlines(c),
        BlockV::Table { head, rows, .. } => im_cells(head) + im_rows(rows),
        BlockV::BlockQuote(bs) => im_blocks(bs),
        BlockV::List { items, .. } => im_items(items),
        BlockV::DefinitionList(d) => im_defs(d),
        BlockV::Admonition { blocks, .. } => im_blocks(blocks),
        _ => seq![],
    }
}

pub open spec fn im_blocks(s: Seq<BlockV>) -> Seq<Seq<char>>
    decreases s,
{
    if s.len() == 0 { seq![] } else { im_blocks(s.drop_last()) + im_block(s.last()) }
}

fn push_text(out: &mut Vec<String>, s: String)
    ensures
        texts(final(out)@) == texts(old(out)@).push(s@),
{
    out.push(s);
    assert(texts(final(out)@) =~= texts(old(out)@).push(s@));
}

/// Every image reference of `doc`, in document order, footnotes included.
pub fn image_sources(doc: &Document) -> (r: Vec<String>)
    ensures
        texts(r@) == im_blocks(blocks_v(doc.blocks@)),
{
    let mut out: Vec<String> = Vec::new();
    collect_blocks(&doc.blocks, &mut out);
    assert(texts(Seq::<String>::empty()) + im_blocks(blocks_v(doc.blocks@)) =~= im_blocks(blocks_v(doc.blocks@)));
    out
}

fn collect_blocks(v: &Vec<Block>, out: &mut Vec<String>)
    ensures
        texts(final(out)@) == texts(old(out)@) + im_blocks(blocks_v(v@)),
    decreases v,
{
    let mut i: usize = 0;
    assert(texts(old(out)@) + im_blocks(blocks_v(v@.take(0))) =~= texts(old(out)@)) by {
        assert(blocks_v(v@.take(0)) =~= Seq::<BlockV>::empty());
    }
    while i < v.len()
        invariant
            i <= v@.len(),
            texts(out@) == texts(old(out)@) + im_blocks(blocks_v(v@.take(i as int))),
        decreases v.len() - i,
    {
        proof { lemma_blocks_v_step(v@, i as int); }
        collect_block(&v[i], out);
        assert(texts(out@) =~= texts(old(out)@) + im_blocks(blocks_v(v@.take(i + 1))));
        i = i + 1;
    }
    assert(v@.take(i as int) =~= v@);
}

fn collect_block(b: &Block, out: &mut Vec<String>)
    ensures
        texts(final(out)@) == texts(old(out)@) + im_block(b@),
    decreases b,
{
    match b {
        Block::Heading { content, .. } => collect_inlines(content, out),
        Block::Paragraph(c) => collect_inlines(c, out),
        Block::Table { head, rows, .. } => {
            collect_cells(head, out);
            collect_rows(rows, out);
            assert(texts(out@) =~= texts(old(out)@) + im_block(b@));
        },
        Block::BlockQuote(bs) => collect_blocks(bs, out),
        Block::List { items, .. } => collect_items(items, out),
        Block::DefinitionList(d) => collect_defs(d, out),
        Block::Admonition { blocks, .. } => collect_blocks(blocks, out),
        _ => {
            assert(texts(old(out)@) + im_block(b@) =~= texts(old(out)@));
        },
    }
}

fn collect_items(v: &Vec<ListItem>, out: &mut Vec<String>)
    ensures
        texts(final(out)@) == texts(old(out)@) + im_items(items_v(v@)),
    decreases v,
{
    let mut i: usize = 0;
    assert(texts(old(out)@) + im_items(items_v(v@.take(0))) =~= texts(old(out)@)) by {
        assert(items_v(v@.take(0)) =~= Seq::<ItemV>::empty());
    }
    while i < v.len()
        invariant
            i <= v@.len(),
            texts(out@) == texts(old(out)@) + im_items(items_v(v@.take(i as int))),
        decreases v.len() - i,
    {
        proof { lemma_items_v_step(v@, i as int); }
        collect_blocks(&v[i].blocks, out);
        assert(texts(out@) =~= texts(old(out)@) + im_items(items_v(v@.take(i + 1))));
        i = i + 1;
    }
    assert(v@.take(i as int) =~= v@);
}

fn collect_defs(v: &Vec<DefinitionItem>, out: &mut Vec<String>)
    ensures
        texts(final(out)@) == texts(old(out)@) + im_defs(defs_v(v@)),
    decreases v,
{
    let mut i: usize = 0;
    assert(texts(old(out)@) + im_defs(defs_v(v@.take(0))) =~= texts(old(out)@)) by {
        assert(defs_v(v@.take(0)) =~= Seq::<DefV>::empty());
    }
    while i < v.len()
        invariant
            i <= v@.len(),
            texts(out@) == texts(old(out)@) + im_defs(defs_v(v@.take(i as int))),
        decreases v.len() - i,
    {
        proof { lemma_defs_v_step(v@, i as int); }
        collect_inlines(&v[i].term, out);
        collect_blocks(&v[i].details, out);
        assert(texts(out@) =~= texts(old(out)@) + im_defs(defs_v(v@.take(i + 1))));
        i = i + 1;
    }
    assert(v@.take(i as int) =~= v@);
}

fn collect_cells(v: &Vec<Vec<Inline>>, out: &mut Vec<String>)
    ensures
        texts(final(out)@) == texts(old(out)@) + im_cells(cells_v(v@)),
    decreases v,
{
    let mut i: usize = 0;
    assert(texts(old(out)@) + im_cells(cells_v(v@.take(0))) =~= texts(old(out)@)) by {
        assert(cells_v(v@.take(0)) =~= Seq::<Seq<InlineV>>::empty());
    }
    while i < v.len()
        invariant
            i <= v@.len(),
            texts(out@) == texts(old(out)@) + im_cells(cells_v(v@.take(i as int))),
        decreases v.len() - i,
    {
        proof { lemma_cells_v_step(v@, i as int); }
        collect_inlines(&v[i], out);
        assert(texts(out@) =~= texts(old(out)@) + im_cells(cells_v(v@.take(i + 1))));
        i = i + 1;
    }
    assert(v@.take(i as int) =~= v@);
}

fn collect_rows(v: &Vec<Vec<Vec<Inline>>>, out: &mut Vec<String>)
    ensures
        texts(final(out)@) == texts(old(out)@) + im_rows(rows_v(v@)),
    decreases v,
{
    let mut i: usize = 0;
    assert(texts(old(out)@) + im_rows(rows_v(v@.take(0))) =~= texts(old(out)@)) by {
        assert(rows_v(v@.take(0)) =~= Seq::<Seq<Seq<InlineV>>>::empty());
    }
    while i < v.len()
        invariant
            i <= v@.len(),
            texts(out@) == texts(old(out)@) + im_rows(rows_v(v@.take(i as int))),
        decreases v.len() - i,
    {
        proof { lemma_rows_v_step(v@, i as int); }
        collect_cells(&v[i], out);
        assert(texts(out@) =~= texts(old(out)@) + im_rows(rows_v(v@.take(i + 1))));
        i = i + 1;
    }
    assert(v@.take(i as int) =~= v@);
}

fn collect_inlines(v: &Vec<Inline>, out: &mut Vec<String>)
    ensures
        texts(final(out)@) == texts(old(out)@) + im_inlines(inlines_v(v@)),
    decreases v,
{
    let mut i: usize = 0;
    assert(texts(old(out)@) + im_inlines(inlines_v(v@.take(0))) =~= texts(old(out)@)) by {
        assert(inlines_v(v@.take(0)) =~= Seq::<InlineV>::empty());
    }
    while i < v.len()
        invariant
            i <= v@.len(),
            texts(out@) == texts(old(out)@) + im_inlines(inlines_v(v@.take(i as int))),
        decreases v.len() - i,
    {
        proof { lemma_inlines_v_step(v@, i as int); }
        collect_inline(&v[i], out);
        assert(texts(out@) =~= texts(old(out)@) + im_inlines(inlines_v(v@.take(i + 1))));
        i = i + 1;
    }
    assert(v@.take(i as int) =~= v@);
}

fn collect_inline(x: &Inline, out: &mut Vec<String>)
    ensures
        texts(final(out)@) == texts(old(out)@) + im_inline(x@),
    decreases x,
{
    match x {
        Inline::Image { src, .. } => {
            push_text(out, src.clone());
            assert(texts(out@) =~= texts(old(out)@) + im_inline(x@));
        },
        Inline::Footnote(bs) => collect_blocks(bs, out),
        Inline::Emph(c) => collect_inlines(c, out),
        Inline::Strong(c) => collect_inlines(c, out),
        Inline::Strikethrough(c) => collect_inlines(c, out),
        Inline::Superscript(c) => collect_inlines(c, out),
        Inline::Link { content, .. } => collect_inlines(content, out),
        _ => {
            assert(texts(old(out)@) + im_inline(x@) =~= texts(old(out)@));
        },
    }
}

} // verus!
