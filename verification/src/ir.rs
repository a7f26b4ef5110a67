//! The renderer-agnostic document model.
//!
//! The front-end ([`crate::parser`]) builds a [`Document`]; the back-ends
//! ([`crate::render`]) read one and know nothing about Markdown. Each exec type
//! has a mathematical view (`InlineV`, `BlockV`, ...) in which strings are
//! character sequences; contracts are stated over those views.

use vstd::prelude::*;
use crate::text::{all_ws, chars_of, is_blank, owned, same};

verus! {

broadcast use vstd::std_specs::vec::group_vec_axioms;


/// Column alignment for tables.
#[derive(PartialEq, Eq, Structural, Clone, Copy, Debug)]
pub enum Align {
    Unspecified,
    Left,
    Center,
    Right,
}

/// The five GitHub alert kinds.
#[derive(PartialEq, Eq, Structural, Clone, Copy, Debug)]
pub enum AdmonitionKind {
    Note,
    Tip,
    Important,
    Warning,
    Caution,
}

/// Inline (span-level) content.
#[derive(Debug)]
pub enum Inline {
    Text(String),
    Emph(Vec<Inline>),
    Strong(Vec<Inline>),
    Strikethrough(Vec<Inline>),
    Superscript(Vec<Inline>),
    Code(String),
    Link { href: String, content: Vec<Inline> },
    /// `width` is a validated dimension from a `{width=…}` group after the image.
    Image { src: String, alt: String, width: Option<String> },
    /// A footnote whose definition has been resolved and inlined.
    Footnote(Vec<Block>),
    SoftBreak,
    LineBreak,
}

/// Block-level content.
#[derive(Debug)]
pub enum Block {
    Heading { level: u8, content: Vec<Inline> },
    Paragraph(Vec<Inline>),
    CodeBlock { lang: Option<String>, code: String },
    BlockQuote(Vec<Block>),
    List { ordered: bool, items: Vec<ListItem> },
    Table { align: Vec<Align>, head: Vec<Vec<Inline>>, rows: Vec<Vec<Vec<Inline>>> },
    ThematicBreak,
    /// `term` lines followed by `: details` lines.
    DefinitionList(Vec<DefinitionItem>),
    /// A GitHub-style alert (`> [!NOTE]` …), rendered as a callout box.
    Admonition { kind: AdmonitionKind, title: String, blocks: Vec<Block> },
    /// Raw HTML, dropped by the back-ends.
    RawHtml(String),
}

/// A single list item; `task` is `Some(checked)` for task-list items.
#[derive(Debug)]
pub struct ListItem {
    pub task: Option<bool>,
    pub blocks: Vec<Block>,
}

/// One term/details pair of a definition list.
#[derive(Debug)]
pub struct DefinitionItem {
    pub term: Vec<Inline>,
    pub details: Vec<Block>,
}

/// Document metadata from the frontmatter. `extra` holds every other
/// `key: value` pair, one entry per key.
#[derive(Debug)]
pub struct Meta {
    pub title: Option<String>,
    pub author: Option<String>,
    pub date: Option<String>,
    pub subtitle: Option<String>,
    pub extra: Vec<(String, String)>,
}

/// A parsed document: metadata plus block-level content.
#[derive(Debug)]
pub struct Document {
    pub meta: Meta,
    pub blocks: Vec<Block>,
}

// ---------------------------------------------------------------- views

pub enum InlineV {
    Text(Seq<char>),
    Emph(Seq<InlineV>),
    Strong(Seq<InlineV>),
    Strikethrough(Seq<InlineV>),
    Superscript(Seq<InlineV>),
    Code(Seq<char>),
    Link { href: Seq<char>, content: Seq<InlineV> },
    Image { src: Seq<char>, alt: Seq<char>, width: Option<Seq<char>> },
    Footnote(Seq<BlockV>),
    SoftBreak,
    LineBreak,
}

pub enum BlockV {
    Heading { level: u8, content: Seq<InlineV> },
    Paragraph(Seq<InlineV>),
    CodeBlock { lang: Option<Seq<char>>, code: Seq<char> },
    BlockQuote(Seq<BlockV>),
    List { ordered: bool, items: Seq<ItemV> },
    Table { align: Seq<Align>, head: Seq<Seq<InlineV>>, rows: Seq<Seq<Seq<InlineV>>> },
    ThematicBreak,
    DefinitionList(Seq<DefV>),
    Admonition { kind: AdmonitionKind, title: Seq<char>, blocks: Seq<BlockV> },
    RawHtml(Seq<char>),
}

pub struct ItemV {
    pub task: Option<bool>,
    pub blocks: Seq<BlockV>,
}

pub struct DefV {
    pub term: Seq<InlineV>,
    pub details: Seq<BlockV>,
}

pub open spec fn opt_v(o: Option<String>) -> Option<Seq<char>> {
    match o {
        Some(s) => Some(s@),
        None => None,
    }
}

pub open spec fn inline_v(i: Inline) -> InlineV
    decreases i,
{
    match i {
        Inline::Text(t) => InlineV::Text(t@),
        Inline::Emph(c) => InlineV::Emph(inlines_v(c@)),
        Inline::Strong(c) => InlineV::Strong(inlines_v(c@)),
        Inline::Strikethrough(c) => InlineV::Strikethrough(inlines_v(c@)),
        Inline::Superscript(c) => InlineV::Superscript(inlines_v(c@)),
        Inline::Code(t) => InlineV::Code(t@),
        Inline::Link { href, content } => InlineV::Link { href: href@, content: inlines_v(content@) },
        Inline::Image { src, alt, width } => InlineV::Image { src: src@, alt: alt@, width: opt_v(width) },
        Inline::Footnote(b) => InlineV::Footnote(blocks_v(b@)),
        Inline::SoftBreak => InlineV::SoftBreak,
        Inline::LineBreak => InlineV::LineBreak,
    }
}

pub open spec fn inlines_v(s: Seq<Inline>) -> Seq<InlineV>
    decreases s,
{
    if s.len() == 0 { seq![] } else { inlines_v(s.drop_last()).push(inline_v(s.last())) }
}

pub open spec fn cells_v(s: Seq<Vec<Inline>>) -> Seq<Seq<InlineV>>
    decreases s,
{
    if s.len() == 0 { seq![] } else { cells_v(s.drop_last()).push(inlines_v(s.last()@)) }
}

pub open spec fn rows_v(s: Seq<Vec<Vec<Inline>>>) -> Seq<Seq<Seq<InlineV>>>
    decreases s,
{
    if s.len() == 0 { seq![] } else { rows_v(s.drop_last()).push(cells_v(s.last()@)) }
}

pub open spec fn block_v(b: Block) -> BlockV
    decreases b,
{
    match b {
        Block::Heading { level, content } => BlockV::Heading { level, content: inlines_v(content@) },
        Block::Paragraph(c) => BlockV::Paragraph(inlines_v(c@)),
        Block::CodeBlock { lang, code } => BlockV::CodeBlock { lang: opt_v(lang), code: code@ },
        Block::BlockQuote(bs) => BlockV::BlockQuote(blocks_v(bs@)),
        Block::List { ordered, items } => BlockV::List { ordered, items: items_v(items@) },
        Block::Table { align, head, rows } => BlockV::Table { align: align@, head: cells_v(head@), rows: rows_v(rows@) },
        Block::ThematicBreak => BlockV::ThematicBreak,
        Block::DefinitionList(d) => BlockV::DefinitionList(defs_v(d@)),
        Block::Admonition { kind, title, blocks } => BlockV::Admonition { kind, title: title@, blocks: blocks_v(blocks@) },
        Block::RawHtml(h) => BlockV::RawHtml(h@),
    }
}

pub open spec fn blocks_v(s: Seq<Block>) -> Seq<BlockV>
    decreases s,
{
    if s.len() == 0 { seq![] } else { blocks_v(s.drop_last()).push(block_v(s.last())) }
}

pub open spec fn items_v(s: Seq<ListItem>) -> Seq<ItemV>
    decreases s,
{
    if s.len() == 0 {
        seq![]
    } else {
        items_v(s.drop_last()).push(ItemV { task: s.last().task, blocks: blocks_v(s.last().blocks@) })
    }
}

pub open spec fn defs_v(s: Seq<DefinitionItem>) -> Seq<DefV>
    decreases s,
{
    if s.len() == 0 {
        seq![]
    } else {
        defs_v(s.drop_last()).push(DefV { term: inlines_v(s.last().term@), details: blocks_v(s.last().details@) })
    }
}

impl View for Inline {
    type V = InlineV;

    open spec fn view(&self) -> InlineV {
        inline_v(*self)
    }
}

impl View for Block {
    type V = BlockV;

    open spec fn view(&self) -> BlockV {
        block_v(*self)
    }
}

pub proof fn lemma_inlines_v(s: Seq<Inline>)
    ensures
        (#[trigger] inlines_v(s)).len() == s.len(),
        forall|i: int| 0 <= i < s.len() ==> #[trigger] inlines_v(s)[i] == inline_v(s[i]),
    decreases s.len(),
{
    if s.len() > 0 {
        lemma_inlines_v(s.drop_last());
    }
}

pub proof fn lemma_blocks_v(s: Seq<Block>)
    ensures
        (#[trigger] blocks_v(s)).len() == s.len(),
        forall|i: int| 0 <= i < s.len() ==> #[trigger] blocks_v(s)[i] == block_v(s[i]),
    decreases s.len(),
{
    if s.len() > 0 {
        lemma_blocks_v(s.drop_last());
    }
}

pub proof fn lemma_cells_v(s: Seq<Vec<Inline>>)
    ensures
        (#[trigger] cells_v(s)).len() == s.len(),
        forall|i: int| 0 <= i < s.len() ==> #[trigger] cells_v(s)[i] == inlines_v(s[i]@),
    decreases s.len(),
{
    if s.len() > 0 {
        lemma_cells_v(s.drop_last());
    }
}

pub proof fn lemma_rows_v(s: Seq<Vec<Vec<Inline>>>)
    ensures
        (#[trigger] rows_v(s)).len() == s.len(),
        forall|i: int| 0 <= i < s.len() ==> #[trigger] rows_v(s)[i] == cells_v(s[i]@),
    decreases s.len(),
{
    if s.len() > 0 {
        lemma_rows_v(s.drop_last());
    }
}

pub proof fn lemma_items_v(s: Seq<ListItem>)
    ensures
        (#[trigger] items_v(s)).len() == s.len(),
        forall|i: int| 0 <= i < s.len() ==> #[trigger] items_v(s)[i] == (ItemV { task: s[i].task, blocks: blocks_v(s[i].blocks@) }),
    decreases s.len(),
{
    if s.len() > 0 {
        lemma_items_v(s.drop_last());
    }
}

pub proof fn lemma_defs_v(s: Seq<DefinitionItem>)
    ensures
        (#[trigger] defs_v(s)).len() == s.len(),
        forall|i: int| 0 <= i < s.len() ==> #[trigger] defs_v(s)[i] == (DefV { term: inlines_v(s[i].term@), details: blocks_v(s[i].details@) }),
    decreases s.len(),
{
    if s.len() > 0 {
        lemma_defs_v(s.drop_last());
    }
}



/// Views of growing prefixes, for loops that walk a vector front to back.
pub proof fn lemma_inlines_v_step(v: Seq<Inline>, i: int)
    requires
        0 <= i < v.len(),
    ensures
        inlines_v(v.take(i + 1)) == inlines_v(v.take(i)).push(inline_v(v[i])),
        inlines_v(v.take(i + 1)).drop_last() == inlines_v(v.take(i)),
{
    assert(v.take(i + 1).drop_last() =~= v.take(i));
    assert(inlines_v(v.take(i + 1)).drop_last() =~= inlines_v(v.take(i)));
}

pub proof fn lemma_blocks_v_step(v: Seq<Block>, i: int)
    requires
        0 <= i < v.len(),
    ensures
        blocks_v(v.take(i + 1)) == blocks_v(v.take(i)).push(block_v(v[i])),
        blocks_v(v.take(i + 1)).drop_last() == blocks_v(v.take(i)),
{
    assert(v.take(i + 1).drop_last() =~= v.take(i));
    assert(blocks_v(v.take(i + 1)).drop_last() =~= blocks_v(v.take(i)));
}

pub proof fn lemma_cells_v_step(v: Seq<Vec<Inline>>, i: int)
    requires
        0 <= i < v.len(),
    ensures
        cells_v(v.take(i + 1)) == cells_v(v.take(i)).push(inlines_v(v[i]@)),
        cells_v(v.take(i + 1)).drop_last() == cells_v(v.take(i)),
{
    assert(v.take(i + 1).drop_last() =~= v.take(i));
    assert(cells_v(v.take(i + 1)).drop_last() =~= cells_v(v.take(i)));
}

pub proof fn lemma_rows_v_step(v: Seq<Vec<Vec<Inline>>>, i: int)
    requires
        0 <= i < v.len(),
    ensures
        rows_v(v.take(i + 1)) == rows_v(v.take(i)).push(cells_v(v[i]@)),
        rows_v(v.take(i + 1)).drop_last() == rows_v(v.take(i)),
{
    assert(v.take(i + 1).drop_last() =~= v.take(i));
    assert(rows_v(v.take(i + 1)).drop_last() =~= rows_v(v.take(i)));
}

pub proof fn lemma_items_v_step(v: Seq<ListItem>, i: int)
    requires
        0 <= i < v.len(),
    ensures
        items_v(v.take(i + 1)) == items_v(v.take(i)).push(ItemV { task: v[i].task, blocks: blocks_v(v[i].blocks@) }),
        items_v(v.take(i + 1)).drop_last() == items_v(v.take(i)),
{
    assert(v.take(i + 1).drop_last() =~= v.take(i));
    assert(items_v(v.take(i + 1)).drop_last() =~= items_v(v.take(i)));
}

pub proof fn lemma_defs_v_step(v: Seq<DefinitionItem>, i: int)
    requires
        0 <= i < v.len(),
    ensures
        defs_v(v.take(i + 1)) == defs_v(v.take(i)).push(DefV { term: inlines_v(v[i].term@), details: blocks_v(v[i].details@) }),
        defs_v(v.take(i + 1)).drop_last() == defs_v(v.take(i)),
{
    assert(v.take(i + 1).drop_last() =~= v.take(i));
    assert(defs_v(v.take(i + 1)).drop_last() =~= defs_v(v.take(i)));
}

// ---------------------------------------------------------------- plain text

/// Plain text of one inline: text and code verbatim, the alt text of images,
/// a space for each break, nothing for footnotes.
pub open spec fn plain_inline(i: InlineV) -> Seq<char>
    decreases i,
{
    match i {
        InlineV::Text(t) => t,
        InlineV::Code(t) => t,
        InlineV::Emph(c) => plain_inlines(c),
        InlineV::Strong(c) => plain_inlines(c),
        InlineV::Strikethrough(c) => plain_inlines(c),
        InlineV::Superscript(c) => plain_inlines(c),
        InlineV::Link { content, .. } => plain_inlines(content),
        InlineV::Image { alt, .. } => alt,
        InlineV::SoftBreak => seq![' '],
        InlineV::LineBreak => seq![' '],
        InlineV::Footnote(_) => seq![],
    }
}

/// Plain text of inline content: the plain text of each inline, concatenated.
pub open spec fn plain_inlines(s: Seq<InlineV>) -> Seq<char>
    decreases s,
{
    if s.len() == 0 { seq![] } else { plain_inlines(s.drop_last()) + plain_inline(s.last()) }
}

/// Flatten inline content to plain text (titles, outlines, anchors).
pub fn inline_text(inlines: &Vec<Inline>) -> (s: String)
    ensures
        s@ == plain_inlines(inlines_v(inlines@)),
    decreases inlines,
{
        let mut s = String::new();
    let mut i: usize = 0;
    while i < inlines.len()
        invariant
            i <= inlines.len(),
            s@ == plain_inlines(inlines_v(inlines@.take(i as int))),
        decreases inlines.len() - i,
    {
        let part = match &inlines[i] {
            Inline::Text(t) => t.clone(),
            Inline::Code(t) => t.clone(),
            Inline::Emph(c) => inline_text(c),
            Inline::Strong(c) => inline_text(c),
            Inline::Strikethrough(c) => inline_text(c),
            Inline::Superscript(c) => inline_text(c),
            Inline::Link { content, .. } => inline_text(content),
            Inline::Image { alt, .. } => alt.clone(),
            Inline::SoftBreak => owned(" "),
            Inline::LineBreak => owned(" "),
            Inline::Footnote(_) => String::new(),
        };
        proof {
            reveal_strlit(" ");
            lemma_inlines_v(inlines@.take(i + 1));
            assert(inlines@.take(i + 1).drop_last() =~= inlines@.take(i as int));
            assert(inlines_v(inlines@.take(i + 1)).last() == inline_v(inlines@[i as int]));
            assert(inlines_v(inlines@.take(i + 1)).drop_last() =~= inlines_v(inlines@.take(i as int)));
            assert(part@ == plain_inline(inline_v(inlines@[i as int])));
        }
        s.append(part.as_str());
        i = i + 1;
    }
    assert(inlines@.take(i as int) =~= inlines@);
    s
}

// ---------------------------------------------------------------- titles

/// Plain text of the first heading in document order whose text is not blank.
pub open spec fn first_heading(blocks: Seq<BlockV>) -> Option<Seq<char>>
    decreases blocks.len(),
{
    if blocks.len() == 0 {
        None
    } else {
        match blocks[0] {
            BlockV::Heading { content, .. } if !is_blank(plain_inlines(content)) => Some(plain_inlines(content)),
            _ => first_heading(blocks.drop_first()),
        }
    }
}

/// The effective title: explicit override, then frontmatter, then the first heading.
pub open spec fn title_of(doc: DocumentV, override_title: Option<Seq<char>>) -> Option<Seq<char>> {
    if override_title is Some {
        override_title
    } else if doc.meta.title is Some {
        doc.meta.title
    } else {
        first_heading(doc.blocks)
    }
}

pub struct MetaV {
    pub title: Option<Seq<char>>,
    pub author: Option<Seq<char>>,
    pub date: Option<Seq<char>>,
    pub subtitle: Option<Seq<char>>,
    pub extra: Map<Seq<char>, Seq<char>>,
}

pub struct DocumentV {
    pub meta: MetaV,
    pub blocks: Seq<BlockV>,
}

/// The map of `key: value` pairs held in `entries`; a later entry for a key wins.
pub open spec fn pairs_map(entries: Seq<(String, String)>) -> Map<Seq<char>, Seq<char>>
    decreases entries.len(),
{
    if entries.len() == 0 {
        Map::empty()
    } else {
        pairs_map(entries.drop_last()).insert(entries.last().0@, entries.last().1@)
    }
}

impl View for Meta {
    type V = MetaV;

    open spec fn view(&self) -> MetaV {
        MetaV {
            title: opt_v(self.title),
            author: opt_v(self.author),
            date: opt_v(self.date),
            subtitle: opt_v(self.subtitle),
            extra: pairs_map(self.extra@),
        }
    }
}

impl View for Document {
    type V = DocumentV;

    open spec fn view(&self) -> DocumentV {
        DocumentV { meta: self.meta@, blocks: blocks_v(self.blocks@) }
    }
}

impl Meta {
    /// Metadata with nothing set.
    pub fn empty() -> (m: Meta)
        ensures
            m@ == (MetaV { title: None, author: None, date: None, subtitle: None, extra: Map::empty() }),
            m.extra@.len() == 0,
    {
        Meta { title: None, author: None, date: None, subtitle: None, extra: Vec::new() }
    }

    /// The value stored for `key` among the extra pairs.
    pub fn extra_value(&self, key: &str) -> (v: Option<String>)
        ensures
            opt_v(v) == (if self@.extra.contains_key(key@) { Some(self@.extra[key@]) } else { None }),
    {
        let mut i = self.extra.len();
        while i > 0
            invariant
                i <= self.extra@.len(),
                forall|j: int| i <= j < self.extra@.len() ==> self.extra@[j].0@ != key@,
            decreases i,
        {
            i = i - 1;
            if same(self.extra[i].0.as_str(), key) {
                proof { lemma_pairs_map_last_hit(self.extra@, i as int, key@); }
                return Some(self.extra[i].1.clone());
            }
        }
        proof { lemma_pairs_map_miss(self.extra@, key@); }
        None
    }
}

proof fn lemma_pairs_map_miss(entries: Seq<(String, String)>, key: Seq<char>)
    requires
        forall|j: int| 0 <= j < entries.len() ==> entries[j].0@ != key,
    ensures
        !pairs_map(entries).contains_key(key),
    decreases entries.len(),
{
    if entries.len() > 0 {
        lemma_pairs_map_miss(entries.drop_last(), key);
    }
}

proof fn lemma_pairs_map_last_hit(entries: Seq<(String, String)>, i: int, key: Seq<char>)
    requires
        0 <= i < entries.len(),
        entries[i].0@ == key,
        forall|j: int| i < j < entries.len() ==> entries[j].0@ != key,
    ensures
        pairs_map(entries).contains_key(key),
        pairs_map(entries)[key] == entries[i].1@,
    decreases entries.len(),
{
    if i < entries.len() - 1 {
        lemma_pairs_map_last_hit(entries.drop_last(), i, key);
    }
}

impl Document {
    /// The effective title: `override_title`, then the frontmatter title, then
    /// the first non-blank heading.
    pub fn resolve_title(&self, override_title: Option<&str>) -> (t: Option<String>)
        ensures
            opt_v(t) == title_of(self@, match override_title { Some(s) => Some(s@), None => None }),
    {
        if let Some(t) = override_title {
            return Some(String::from_str(t));
        }
        if let Some(t) = &self.meta.title {
            return Some(t.clone());
        }
        self.first_heading_text()
    }

    /// Plain text of the first heading in document order whose text is not blank.
    pub fn first_heading_text(&self) -> (t: Option<String>)
        ensures
            opt_v(t) == first_heading(self@.blocks),
    {
            let mut i: usize = 0;
        assert(blocks_v(self.blocks@).skip(0) =~= blocks_v(self.blocks@));
        while i < self.blocks.len()
            invariant
                i <= self.blocks@.len(),
                first_heading(blocks_v(self.blocks@)) == first_heading(blocks_v(self.blocks@).skip(i as int)),
            decreases self.blocks.len() - i,
        {
            let ghost rest = blocks_v(self.blocks@).skip(i as int);
            proof { lemma_blocks_v(self.blocks@); }
            assert(blocks_v(self.blocks@).len() == self.blocks@.len());
            assert(rest[0] == block_v(self.blocks@[i as int]));
            assert(rest.drop_first() =~= blocks_v(self.blocks@).skip(i + 1));
            if let Block::Heading { content, .. } = &self.blocks[i] {
                let t = inline_text(content);
                let v = chars_of(t.as_str());
                if !all_ws(&v, 0, v.len()) {
                    assert(v@.subrange(0, v@.len() as int) =~= v@);
                    return Some(t);
                }
                assert(v@.subrange(0, v@.len() as int) =~= v@);
            }
            i = i + 1;
        }
        proof { lemma_blocks_v(self.blocks@); }
        assert(blocks_v(self.blocks@).skip(i as int) =~= Seq::<BlockV>::empty());
        None
    }
}

} // verus!
