//! `validate`: parse a document, count what it holds, and collect the
//! warnings a render would produce, without rendering.

use vstd::prelude::*;
use crate::ir::{blocks_v, cells_v, defs_v, inlines_v, items_v, lemma_blocks_v_step, lemma_cells_v_step, lemma_defs_v_step, lemma_inlines_v_step, lemma_items_v_step, lemma_rows_v_step, rows_v, Block, BlockV, DefV, DefinitionItem, Document, Inline, InlineV, ItemV, ListItem};
use crate::parser::{parse, parsed};
use crate::render::{messages, Diagnostic, Layout, Paper, RenderOptions, Renderer};
use crate::render::docx::lower::AssetFiles;
use crate::render::typst::{typst_notes, TypstSourceRenderer};
use crate::security::{AssetProbes, SecurityPolicy};
use crate::cli::convert::default_options;
use crate::text::{decimal, decimal_string};
use crate::theme::Theme;

verus! {

/// How many headings, paragraphs, code blocks, tables, images and footnotes
/// a document holds, footnote contents included.
#[derive(Debug)]
pub struct Stats {
    pub headings: usize,
    pub paragraphs: usize,
    pub code: usize,
    pub tables: usize,
    pub images: usize,
    pub footnotes: usize,
}

pub struct Tally {
    pub headings: nat,
    pub paragraphs: nat,
    pub code: nat,
    pub tables: nat,
    pub images: nat,
    pub footnotes: nat,
}

impl View for Stats {
    type V = Tally;

    open spec fn view(&self) -> Tally {
        Tally {
            headings: self.headings as nat,
            paragraphs: self.paragraphs as nat,
            code: self.code as nat,
            tables: self.tables as nat,
            images: self.images as nat,
            footnotes: self.footnotes as nat,
        }
    }
}

pub open spec fn zero() -> Tally {
    Tally { headings: 0, paragraphs: 0, code: 0, tables: 0, images: 0, footnotes: 0 }
}

pub open spec fn plus(a: Tally, b: Tally) -> Tally {
    Tally {
        headings: a.headings + b.headings,
        paragraphs: a.paragraphs + b.paragraphs,
        code: a.code + b.code,
        tables: a.tables + b.tables,
        images: a.images + b.images,
        footnotes: a.footnotes + b.footnotes,
    }
}

pub open spec fn cap(n: nat) -> nat {
    if n > usize::MAX { usize::MAX as nat } else { n }
}

/// Each count capped at the largest `usize`.
pub open spec fn capped(a: Tally) -> Tally {
    Tally {
        headings: cap(a.headings),
        paragraphs: cap(a.paragraphs),
        code: cap(a.code),
        tables: cap(a.tables),
        images: cap(a.images),
        footnotes: cap(a.footnotes),
    }
}

pub open spec fn tl_inline(i: InlineV) -> Tally
    decreases i,
{
    match i {
        InlineV::Image { .. } => Tally { images: 1, ..zero() },
        InlineV::Footnote(bs) => plus(Tally { footnotes: 1, ..zero() }, tl_blocks(bs)),
        InlineV::Emph(c) => tl_inlines(c),
        InlineV::Strong(c) => tl_inlines(c),
        InlineV::Strikethrough(c) => tl_inlines(c),
        InlineV::Superscript(c) => tl_inlines(c),
        InlineV::Link { content, .. } => tl_inlines(content),
        _ => zero(),
    }
}

pub open spec fn tl_inlines(s: Seq<InlineV>) -> Tally
    decreases s,
{
    if s.len() == 0 { zero() } else { plus(tl_inlines(s.drop_last()), tl_inline(s.last())) }
}

pub open spec fn tl_cells(s: Seq<Seq<InlineV>>) -> Tally
    decreases s,
{
    if s.len() == 0 { zero() } else { plus(tl_cells(s.drop_last()), tl_inlines(s.last())) }
}

pub open spec fn tl_rows(s: Seq<Seq<Seq<InlineV>>>) -> Tally
    decreases s,
{
    if s.len() == 0 { zero() } else { plus(tl_rows(s.drop_last()), tl_cells(s.last())) }
}

pub open spec fn tl_items(s: Seq<ItemV>) -> Tally
    decreases s,
{
    if s.len() == 0 { zero() } else { plus(tl_items(s.drop_last()), tl_blocks(s.last().blocks)) }
}

pub open spec fn tl_defs(s: Seq<DefV>) -> Tally
    decreases s,
{
    if s.len() == 0 {
        zero()
    } else {
        plus(tl_defs(s.drop_last()), plus(tl_inlines(s.last().term), tl_blocks(s.last().details)))
    }
}

/// What one block adds to the counts: itself where it is counted, then its
/// contents (a table's cells, a list's items, a quote's or alert's blocks,
/// a definition list's terms and details).
pub open spec fn tl_block(b: BlockV) -> Tally
    decreases b,
{
    match b {
        BlockV::Heading { content, .. } => plus(Tally { headings: 1, ..zero() }, tl_inlines(content)),
        BlockV::Paragraph(c) => plus(Tally { paragraphs: 1, ..zero() }, tl_inlines(c)),
        BlockV::CodeBlock { .. } => Tally { code: 1, ..zero() },
        BlockV::Table { head, rows, .. } => plus(Tally { tables: 1, ..zero() }, plus(tl_cells(head), tl_rows(rows))),
        BlockV::BlockQuote(bs) => tl_blocks(bs),
        BlockV::List { items, .. } => tl_items(items),
        BlockV::DefinitionList(d) => tl_defs(d),
        BlockV::Admonition { blocks, .. } => tl_blocks(blocks),
        BlockV::ThematicBreak => zero(),
        BlockV::RawHtml(_) => zero(),
    }
}

pub open spec fn tl_blocks(s: Seq<BlockV>) -> Tally
    decreases s,
{
    if s.len() == 0 { zero() } else { plus(tl_blocks(s.drop_last()), tl_block(s.last())) }
}

/// Counts add up over text: the counts of two runs of inlines put together
/// are the sums of their counts.
pub proof fn law_counts_add(a: Seq<InlineV>, b: Seq<InlineV>)
    ensures
        tl_inlines(a + b) == plus(tl_inlines(a), tl_inlines(b)),
    decreases b.len(),
{
    if b.len() == 0 {
        assert(a + b =~= a);
    } else {
        law_counts_add(a, b.drop_last());
        assert((a + b).drop_last() =~= a + b.drop_last());
        assert((a + b).last() == b.last());
    }
}

/// Counting sees through links and formatting: an image or a footnote
/// counts the same whether or not it sits inside a link, emphasis, strong,
/// struck-through or superscript text; and one image is one image.
pub proof fn law_counts_see_through(c: Seq<InlineV>, href: Seq<char>, src: Seq<char>, alt: Seq<char>, width: Option<Seq<char>>)
    ensures
        tl_inline(InlineV::Link { href, content: c }) == tl_inlines(c),
        tl_inline(InlineV::Emph(c)) == tl_inlines(c),
        tl_inline(InlineV::Strong(c)) == tl_inlines(c),
        tl_inline(InlineV::Strikethrough(c)) == tl_inlines(c),
        tl_inline(InlineV::Superscript(c)) == tl_inlines(c),
        tl_inlines(seq![InlineV::Image { src, alt, width }]) == (Tally { images: 1, ..zero() }),
{
    let one = seq![InlineV::Image { src, alt, width }];
    assert(one.drop_last() =~= Seq::<InlineV>::empty());
    assert(tl_inlines(one.drop_last()) == zero());
    assert(one.len() == 1);
    assert(one.last() == InlineV::Image { src, alt, width });
    assert(tl_inline(one.last()) == Tally { images: 1, ..zero() });
    assert(tl_inlines(one) == plus(tl_inlines(one.drop_last()), tl_inline(one.last())));
    assert(tl_inlines(one) == plus(zero(), Tally { images: 1, ..zero() }));
}

proof fn lemma_cap_plus(a: Tally, b: Tally, c: Tally)
    ensures
        capped(plus(capped(plus(a, b)), c)) == capped(plus(a, plus(b, c))),
{
}

proof fn lemma_plus_zero(a: Tally)
    ensures
        plus(a, zero()) == a,
{
}

impl Stats {
    /// Count what `doc` holds.
    pub fn of(doc: &Document) -> (s: Stats)
        ensures
            s@ == capped(tl_blocks(blocks_v(doc.blocks@))),
    {
        let mut s = Stats { headings: 0, paragraphs: 0, code: 0, tables: 0, images: 0, footnotes: 0 };
        s.walk_blocks(&doc.blocks);
        proof {
            assert(plus(zero(), tl_blocks(blocks_v(doc.blocks@))) == tl_blocks(blocks_v(doc.blocks@)));
        }
        s
    }

    /// Add the counts of `blocks`.
    pub fn walk_blocks(&mut self, blocks: &Vec<Block>)
        ensures
            final(self)@ == capped(plus(old(self)@, tl_blocks(blocks_v(blocks@)))),
        decreases blocks,
    {
        let ghost s0 = self@;
        let mut i: usize = 0;
        proof {
            lemma_plus_zero(s0);
            assert(blocks_v(blocks@.take(0)) =~= Seq::<BlockV>::empty());
        }
        while i < blocks.len()
            invariant
                i <= blocks@.len(),
                self@ == capped(plus(s0, tl_blocks(blocks_v(blocks@.take(i as int))))),
            decreases blocks.len() - i,
        {
            proof { lemma_blocks_v_step(blocks@, i as int); }
            let ghost before = tl_blocks(blocks_v(blocks@.take(i as int)));
            self.walk_block(&blocks[i]);
            proof {
                lemma_cap_plus(s0, before, tl_block(blocks@[i as int]@));
            }
            i = i + 1;
        }
        assert(blocks@.take(i as int) =~= blocks@);
    }

    fn walk_block(&mut self, b: &Block)
        ensures
            final(self)@ == capped(plus(old(self)@, tl_block(b@))),
        decreases b,
    {
        let ghost s0 = self@;
        match b {
            Block::Heading { content, .. } => {
                self.headings = self.headings.saturating_add(1);
                self.walk_inlines(content);
                proof { lemma_cap_plus(s0, Tally { headings: 1, ..zero() }, tl_inlines(inlines_v(content@))); }
            },
            Block::Paragraph(c) => {
                self.paragraphs = self.paragraphs.saturating_add(1);
                self.walk_inlines(c);
                proof { lemma_cap_plus(s0, Tally { paragraphs: 1, ..zero() }, tl_inlines(inlines_v(c@))); }
            },
            Block::CodeBlock { .. } => {
                self.code = self.code.saturating_add(1);
            },
            Block::Table { head, rows, .. } => {
                self.tables = self.tables.saturating_add(1);
                self.walk_cells(head);
                proof { lemma_cap_plus(s0, Tally { tables: 1, ..zero() }, tl_cells(cells_v(head@))); }
                self.walk_rows(rows);
                proof {
                    lemma_cap_plus(s0, plus(Tally { tables: 1, ..zero() }, tl_cells(cells_v(head@))), tl_rows(rows_v(rows@)));
                }
            },
            Block::BlockQuote(bs) => self.walk_blocks(bs),
            Block::List { items, .. } => self.walk_items(items),
            Block::DefinitionList(d) => self.walk_defs(d),
            Block::Admonition { blocks, .. } => self.walk_blocks(blocks),
            Block::ThematicBreak => {
                proof { lemma_plus_zero(s0); }
            },
            Block::RawHtml(_) => {
                proof { lemma_plus_zero(s0); }
            },
        }
    }

    fn walk_items(&mut self, v: &Vec<ListItem>)
        ensures
            final(self)@ == capped(plus(old(self)@, tl_items(items_v(v@)))),
        decreases v,
    {
        let ghost s0 = self@;
        let mut i: usize = 0;
        proof {
            lemma_plus_zero(s0);
            assert(items_v(v@.take(0)) =~= Seq::<ItemV>::empty());
        }
        while i < v.len()
            invariant
                i <= v@.len(),
                self@ == capped(plus(s0, tl_items(items_v(v@.take(i as int))))),
            decreases v.len() - i,
        {
            proof { lemma_items_v_step(v@, i as int); }
            let ghost before = tl_items(items_v(v@.take(i as int)));
            self.walk_blocks(&v[i].blocks);
            proof { lemma_cap_plus(s0, before, tl_blocks(blocks_v(v@[i as int].blocks@))); }
            i = i + 1;
        }
        assert(v@.take(i as int) =~= v@);
    }

    fn walk_defs(&mut self, v: &Vec<DefinitionItem>)
        ensures
            final(self)@ == capped(plus(old(self)@, tl_defs(defs_v(v@)))),
        decreases v,
    {
        let ghost s0 = self@;
        let mut i: usize = 0;
        proof {
            lemma_plus_zero(s0);
            assert(defs_v(v@.take(0)) =~= Seq::<DefV>::empty());
        }
        while i < v.len()
            invariant
                i <= v@.len(),
                self@ == capped(plus(s0, tl_defs(defs_v(v@.take(i as int))))),
            decreases v.len() - i,
        {
            proof { lemma_defs_v_step(v@, i as int); }
            let ghost before = tl_defs(defs_v(v@.take(i as int)));
            let ghost t = tl_inlines(inlines_v(v@[i as int].term@));
            let ghost d = tl_blocks(blocks_v(v@[i as int].details@));
            self.walk_inlines(&v[i].term);
            proof { lemma_cap_plus(s0, before, t); }
            self.walk_blocks(&v[i].details);
            proof {
                lemma_cap_plus(s0, plus(before, t), d);
                assert(plus(plus(before, t), d) == plus(before, plus(t, d)));
            }
            i = i + 1;
        }
        assert(v@.take(i as int) =~= v@);
    }

    fn walk_cells(&mut self, v: &Vec<Vec<Inline>>)
        ensures
            final(self)@ == capped(plus(old(self)@, tl_cells(cells_v(v@)))),
        decreases v,
    {
        let ghost s0 = self@;
        let mut i: usize = 0;
        proof {
            lemma_plus_zero(s0);
            assert(cells_v(v@.take(0)) =~= Seq::<Seq<InlineV>>::empty());
        }
        while i < v.len()
            invariant
                i <= v@.len(),
                self@ == capped(plus(s0, tl_cells(cells_v(v@.take(i as int))))),
            decreases v.len() - i,
        {
            proof { lemma_cells_v_step(v@, i as int); }
            let ghost before = tl_cells(cells_v(v@.take(i as int)));
            self.walk_inlines(&v[i]);
            proof { lemma_cap_plus(s0, before, tl_inlines(inlines_v(v@[i as int]@))); }
            i = i + 1;
        }
        assert(v@.take(i as int) =~= v@);
    }

    fn walk_rows(&mut self, v: &Vec<Vec<Vec<Inline>>>)
        ensures
            final(self)@ == capped(plus(old(self)@, tl_rows(rows_v(v@)))),
        decreases v,
    {
        let ghost s0 = self@;
        let mut i: usize = 0;
        proof {
            lemma_plus_zero(s0);
            assert(rows_v(v@.take(0)) =~= Seq::<Seq<Seq<InlineV>>>::empty());
        }
        while i < v.len()
            invariant
                i <= v@.len(),
                self@ == capped(plus(s0, tl_rows(rows_v(v@.take(i as int))))),
            decreases v.len() - i,
        {
            proof { lemma_rows_v_step(v@, i as int); }
            let ghost before = tl_rows(rows_v(v@.take(i as int)));
            self.walk_cells(&v[i]);
            proof { lemma_cap_plus(s0, before, tl_cells(cells_v(v@[i as int]@))); }
            i = i + 1;
        }
        assert(v@.take(i as int) =~= v@);
    }

    /// Add the counts of `inlines`.
    pub fn walk_inlines(&mut self, inlines: &Vec<Inline>)
        ensures
            final(self)@ == capped(plus(old(self)@, tl_inlines(inlines_v(inlines@)))),
        decreases inlines,
    {
        let ghost s0 = self@;
        let mut i: usize = 0;
        proof {
            lemma_plus_zero(s0);
            assert(inlines_v(inlines@.take(0)) =~= Seq::<InlineV>::empty());
        }
        while i < inlines.len()
            invariant
                i <= inlines@.len(),
                self@ == capped(plus(s0, tl_inlines(inlines_v(inlines@.take(i as int))))),
            decreases inlines.len() - i,
        {
            proof { lemma_inlines_v_step(inlines@, i as int); }
            let ghost before = tl_inlines(inlines_v(inlines@.take(i as int)));
            self.walk_inline(&inlines[i]);
            proof { lemma_cap_plus(s0, before, tl_inline(inlines@[i as int]@)); }
            i = i + 1;
        }
        assert(inlines@.take(i as int) =~= inlines@);
    }

    fn walk_inline(&mut self, i: &Inline)
        ensures
            final(self)@ == capped(plus(old(self)@, tl_inline(i@))),
        decreases i,
    {
        let ghost s0 = self@;
        match i {
            Inline::Image { .. } => {
                self.images = self.images.saturating_add(1);
            },
            Inline::Footnote(blocks) => {
                self.footnotes = self.footnotes.saturating_add(1);
                self.walk_blocks(blocks);
                proof { lemma_cap_plus(s0, Tally { footnotes: 1, ..zero() }, tl_blocks(blocks_v(blocks@))); }
            },
            Inline::Emph(c) => self.walk_inlines(c),
            Inline::Strong(c) => self.walk_inlines(c),
            Inline::Strikethrough(c) => self.walk_inlines(c),
            Inline::Superscript(c) => self.walk_inlines(c),
            Inline::Link { content, .. } => self.walk_inlines(content),
            _ => {
                proof { lemma_plus_zero(s0); }
            },
        }
    }
}

/// Parse `markdown` and gather what `validate` reports: its counts, and the
/// warnings a Typst render with the built-in defaults rooted at `root` gives
/// (`probes` are the facts about the images it references).
pub fn check(markdown: &str, root: &str, probes: &AssetProbes) -> (r: (Stats, Vec<Diagnostic>))
    ensures
        r.0@ == capped(tl_blocks(parsed(markdown@).blocks)),
        messages(r.1@) == typst_notes(parsed(markdown@), default_options(root@), probes.entries@),
{
    let doc = parse(markdown);
    let stats = Stats::of(&doc);
    let opts = RenderOptions {
        theme: Theme::Default,
        paper: Paper::A4,
        toc: false,
        title: None,
        layout: Layout::default(),
        security: SecurityPolicy::strict(root),
    };
    match TypstSourceRenderer.render(&doc, &opts, probes, &AssetFiles { entries: Vec::new() }) {
        Ok(out) => (stats, out.diagnostics),
        Err(_) => {
            assert(false);
            (stats, Vec::new())
        },
    }
}

/// One `    - message` line per warning.
pub open spec fn warning_lines(m: Seq<Seq<char>>) -> Seq<char>
    decreases m.len(),
{
    if m.len() == 0 { seq![] } else { warning_lines(m.drop_last()) + "    - "@ + m.last() + "\n"@ }
}

/// The report for one file: its path, its counts, then `ok` or its warnings.
pub open spec fn report_text(path: Seq<char>, t: Tally, m: Seq<Seq<char>>) -> Seq<char> {
    path + "\n"@ + "  "@ + decimal(t.headings) + " headings, "@ + decimal(t.paragraphs) + " paragraphs, "@
        + decimal(t.code) + " code blocks, "@ + decimal(t.tables) + " tables, "@ + decimal(t.images) + " images, "@
        + decimal(t.footnotes) + " footnotes\n"@ + if m.len() == 0 {
        "  ok \u{2014} no problems found\n"@
    } else {
        "  "@ + decimal(m.len()) + " warning(s):\n"@ + warning_lines(m)
    }
}

fn push_count(s: &mut String, n: usize, label: &str)
    ensures
        final(s)@ == old(s)@ + decimal(n as nat) + label@,
{
    let d = decimal_string(n as u64);
    s.append(d.as_str());
    s.append(label);
}

/// The text `validate` prints for one file.
pub fn report(path: &str, stats: &Stats, diagnostics: &Vec<Diagnostic>) -> (s: String)
    ensures
        s@ == report_text(path@, stats@, messages(diagnostics@)),
{
    let mut s = String::from_str(path);
    s.append("\n");
    s.append("  ");
    push_count(&mut s, stats.headings, " headings, ");
    push_count(&mut s, stats.paragraphs, " paragraphs, ");
    push_count(&mut s, stats.code, " code blocks, ");
    push_count(&mut s, stats.tables, " tables, ");
    push_count(&mut s, stats.images, " images, ");
    push_count(&mut s, stats.footnotes, " footnotes\n");
    if diagnostics.len() == 0 {
        s.append("  ok \u{2014} no problems found\n");
    } else {
        s.append("  ");
        push_count(&mut s, diagnostics.len(), " warning(s):\n");
        let ghost mid = s@;
        let mut i: usize = 0;
        while i < diagnostics.len()
            invariant
                i <= diagnostics@.len(),
                s@ == mid + warning_lines(messages(diagnostics@.take(i as int))),
            decreases diagnostics.len() - i,
        {
            proof { crate::render::lemma_messages_step(diagnostics@, i as int); }
            s.append("    - ");
            s.append(diagnostics[i].message.as_str());
            s.append("\n");
            let ghost m1 = messages(diagnostics@.take(i + 1));
            assert(m1.drop_last() == messages(diagnostics@.take(i as int)));
            assert(s@ =~= mid + warning_lines(m1));
            i = i + 1;
        }
        assert(diagnostics@.take(i as int) =~= diagnostics@);
        proof { lemma_messages_len(diagnostics@); }
    }
    s
}

proof fn lemma_messages_len(d: Seq<Diagnostic>)
    ensures
        messages(d).len() == d.len(),
    decreases d.len(),
{
    if d.len() > 0 {
        lemma_messages_len(d.drop_last());
    }
}

/// With `--strict`, any warning fails the run.
pub open spec fn strict_result(strict: bool, warnings: nat) -> Result<(), Seq<char>> {
    if strict && warnings > 0 {
        Err(decimal(warnings) + " warning(s) found (--strict)"@)
    } else {
        Ok(())
    }
}

/// The outcome of `validate` over files that produced `warnings` in all.
pub fn strict_gate(strict: bool, warnings: u64) -> (r: Result<(), String>)
    ensures
        match r {
            Ok(()) => strict_result(strict, warnings as nat) == Ok::<(), Seq<char>>(()),
            Err(e) => strict_result(strict, warnings as nat) == Err::<(), Seq<char>>(e@),
        },
{
    if strict && warnings > 0 {
        let mut e = decimal_string(warnings);
        e.append(" warning(s) found (--strict)");
        Err(e)
    } else {
        Ok(())
    }
}

} // verus!
