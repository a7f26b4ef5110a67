//! What the DOCX back-end writes, as plain data: styles, page furniture and
//! the body's paragraphs, tables and contents field, with the rules that
//! derive them from a document.

use vstd::prelude::*;
use crate::ir::{plain_inlines, title_of, AdmonitionKind, BlockV, DefV, DocumentV, InlineV, ItemV, MetaV};
use crate::render::{substituted, OptionsV};
use crate::render::typst::{image_decision, mermaid_note, raw_html_note, Env};
use crate::security::DecisionV;
use crate::parser::dimension::{dec_value, digit_run, frac_order};
use crate::text::{decimal, is_blank};
use crate::theme::{spec_of, ThemeSpecV};

verus! {

// ---------------------------------------------------------------- the model

/// The largest width or height, in pixels, of an embedded picture:
/// `docx-rs` keeps a picture's size in EMUs (9525 per pixel) in a `u32`.
pub const MAX_PICTURE_PX: u32 = 450915;

/// PNG bytes with the picture's width and height in pixels, each at most
/// `MAX_PICTURE_PX`.
pub struct Picture {
    png: Vec<u8>,
    width: u32,
    height: u32,
}

impl View for Picture {
    type V = (Seq<u8>, u32, u32);

    closed spec fn view(&self) -> (Seq<u8>, u32, u32) {
        (self.png@, self.width, self.height)
    }
}

impl Picture {
    #[verifier::type_invariant]
    spec fn fits(self) -> bool {
        self.width <= MAX_PICTURE_PX && self.height <= MAX_PICTURE_PX
    }

    /// The picture, where its size fits.
    pub fn new(png: Vec<u8>, width: u32, height: u32) -> (p: Option<Picture>)
        ensures
            p is Some == (width <= MAX_PICTURE_PX && height <= MAX_PICTURE_PX),
            p matches Some(q) ==> q@ == (png@, width, height),
    {
        if width <= MAX_PICTURE_PX && height <= MAX_PICTURE_PX {
            Some(Picture { png, width, height })
        } else {
            None
        }
    }

    /// The PNG bytes.
    pub fn png(&self) -> (b: &Vec<u8>)
        ensures
            b@ == self@.0,
    {
        &self.png
    }

    /// The width and height in pixels.
    pub fn size(&self) -> (r: (u32, u32))
        ensures
            r == (self@.1, self@.2),
            r.0 <= MAX_PICTURE_PX,
            r.1 <= MAX_PICTURE_PX,
    {
        proof { use_type_invariant(self); }
        (self.width, self.height)
    }
}

/// A piece of a run: text, a line break, an embedded picture, or a footnote
/// reference with its footnote's paragraphs.
pub enum Piece {
    Text(String),
    Break,
    Image(Picture),
    Note(u64, Vec<String>),
}

/// The character style of inline code.
pub const CODE_CHAR_STYLE: &'static str = "CodeChar";

/// The title of the contents field.
pub const CONTENTS_TITLE: &'static str = "Contents";

/// A run of pieces sharing character formatting, with its character style.
pub struct DRun {
    pub pieces: Vec<Piece>,
    pub bold: bool,
    pub italic: bool,
    pub strike: bool,
    pub style: Option<String>,
    pub color: Option<String>,
    pub size: Option<u64>,
}

/// A paragraph item: a run, or a hyperlink around a run.
pub enum DItem {
    Run(DRun),
    Link(String, DRun),
}

/// A paragraph: style, centring, left indent (twips), list numbering
/// (numbering id, level) and items.
pub struct DPara {
    pub style: Option<String>,
    pub center: bool,
    pub indent: Option<i64>,
    pub numbering: Option<(u64, u64)>,
    pub items: Vec<DItem>,
}

/// A body part. A contents field lists the headings of levels `first` to
/// `last` under `title`, filled in when the document is opened where `auto`.
pub enum DPart {
    Para(DPara),
    Table(Vec<Vec<DPara>>),
    Contents { first: u64, last: u64, title: String, auto: bool },
}

pub enum PieceV {
    Text(Seq<char>),
    Break,
    Image(Seq<u8>, u32, u32),
    Note(u64, Seq<Seq<char>>),
}

pub struct DRunV {
    pub pieces: Seq<PieceV>,
    pub bold: bool,
    pub italic: bool,
    pub strike: bool,
    pub style: Option<Seq<char>>,
    pub color: Option<Seq<char>>,
    pub size: Option<u64>,
}

pub enum DItemV {
    Run(DRunV),
    Link(Seq<char>, DRunV),
}

pub struct DParaV {
    pub style: Option<Seq<char>>,
    pub center: bool,
    pub indent: Option<i64>,
    pub numbering: Option<(u64, u64)>,
    pub items: Seq<DItemV>,
}

pub enum DPartV {
    Para(DParaV),
    Table(Seq<Seq<DParaV>>),
    Contents { first: u64, last: u64, title: Seq<char>, auto: bool },
}

pub open spec fn strings_v(s: Seq<String>) -> Seq<Seq<char>> {
    s.map_values(|x: String| x@)
}

pub open spec fn piece_v(p: Piece) -> PieceV {
    match p {
        Piece::Text(t) => PieceV::Text(t@),
        Piece::Break => PieceV::Break,
        Piece::Image(p) => PieceV::Image(p@.0, p@.1, p@.2),
        Piece::Note(id, ps) => PieceV::Note(id, strings_v(ps@)),
    }
}

pub open spec fn run_v(r: DRun) -> DRunV {
    DRunV {
        pieces: r.pieces@.map_values(|p: Piece| piece_v(p)),
        bold: r.bold,
        italic: r.italic,
        strike: r.strike,
        style: match r.style { Some(t) => Some(t@), None => None },
        color: match r.color { Some(c) => Some(c@), None => None },
        size: r.size,
    }
}

pub open spec fn item_v(i: DItem) -> DItemV {
    match i {
        DItem::Run(r) => DItemV::Run(run_v(r)),
        DItem::Link(h, r) => DItemV::Link(h@, run_v(r)),
    }
}

pub open spec fn para_v(p: DPara) -> DParaV {
    DParaV {
        style: match p.style { Some(s) => Some(s@), None => None },
        center: p.center,
        indent: p.indent,
        numbering: p.numbering,
        items: p.items@.map_values(|i: DItem| item_v(i)),
    }
}

pub open spec fn paras_v(s: Seq<DPara>) -> Seq<DParaV> {
    s.map_values(|p: DPara| para_v(p))
}

pub open spec fn part_v(p: DPart) -> DPartV {
    match p {
        DPart::Para(x) => DPartV::Para(para_v(x)),
        DPart::Table(rows) => DPartV::Table(rows@.map_values(|r: Vec<DPara>| paras_v(r@))),
        DPart::Contents { first, last, title, auto } => DPartV::Contents { first, last, title: title@, auto },
    }
}

pub open spec fn parts_v(s: Seq<DPart>) -> Seq<DPartV> {
    s.map_values(|p: DPart| part_v(p))
}

// ---------------------------------------------------------------- formatting

/// Inline formatting accumulated while descending nested inlines.
#[derive(Clone, Copy)]
pub struct Fmt {
    pub bold: bool,
    pub italic: bool,
    pub strike: bool,
    pub code: bool,
}

pub open spec fn plain_fmt() -> Fmt {
    Fmt { bold: false, italic: false, strike: false, code: false }
}

/// The character style for formatting `f`: the code style for code.
pub open spec fn code_style(f: Fmt) -> Option<Seq<char>> {
    if f.code { Some(CODE_CHAR_STYLE@) } else { None }
}

/// A run of one text with the given formatting.
pub open spec fn styled(text: Seq<char>, f: Fmt) -> DRunV {
    DRunV { pieces: seq![PieceV::Text(text)], bold: f.bold, italic: f.italic, strike: f.strike, style: code_style(f), color: None, size: None }
}

/// A run of bare pieces.
pub open spec fn bare(pieces: Seq<PieceV>) -> DRunV {
    DRunV { pieces, bold: false, italic: false, strike: false, style: None, color: None, size: None }
}

/// A docx colour: the hex digits without leading `#`s.
pub open spec fn hex_color(c: Seq<char>) -> Seq<char>
    decreases c.len(),
{
    if c.len() > 0 && c[0] == '#' { hex_color(c.drop_first()) } else { c }
}

/// Twips of indentation per nesting level (720 = 0.5").
pub open spec fn step() -> i64 {
    720
}

/// A plain paragraph of `items`, indented where `indent > 0`.
pub open spec fn para(style: Option<Seq<char>>, indent: i64, items: Seq<DItemV>) -> DParaV {
    DParaV { style, center: false, indent: if indent > 0 { Some(indent) } else { None }, numbering: None, items }
}

/// Indentation one step deeper, saturating.
pub open spec fn deeper(indent: i64, k: int) -> i64 {
    if indent + step() * k > i64::MAX { i64::MAX } else { (indent + step() * k) as i64 }
}

// ---------------------------------------------------------------- inlines

/// What lowering needs besides the document: the image policy and probes,
/// the bytes of the files read for allowed images, the link colour.
pub struct DocxEnv {
    pub env: Env,
    pub files: Seq<(String, Result<Vec<u8>, String>)>,
    pub link_color: Seq<char>,
}

/// The bytes read for image `src`, or the reason they could not be.
pub open spec fn file_for(files: Seq<(String, Result<Vec<u8>, String>)>, src: Seq<char>) -> Result<Seq<u8>, Seq<char>>
    decreases files.len(),
{
    if files.len() == 0 {
        Err("not read"@)
    } else if files.last().0@ == src {
        match files.last().1 {
            Ok(b) => Ok(b@),
            Err(e) => Err(e@),
        }
    } else {
        file_for(files.drop_last(), src)
    }
}

/// The lowering state: items of the paragraph being built, footnotes
/// numbered so far, diagnostics.
pub struct IS {
    pub items: Seq<DItemV>,
    pub seq: u64,
    pub diags: Seq<Seq<char>>,
}

pub open spec fn add_item(st: IS, i: DItemV) -> IS {
    IS { items: st.items.push(i), ..st }
}

pub open spec fn note_i(st: IS, m: Seq<char>) -> IS {
    IS { diags: st.diags.push(m), ..st }
}

/// `seps`-joined texts.
pub open spec fn joined(s: Seq<Seq<char>>, sep: Seq<char>) -> Seq<char>
    decreases s.len(),
{
    if s.len() == 0 {
        seq![]
    } else if s.len() == 1 {
        s[0]
    } else {
        joined(s.drop_last(), sep) + sep + s.last()
    }
}

/// A block flattened to plain text (footnote bodies).
pub open spec fn block_text(b: BlockV) -> Seq<char>
    decreases b, 1nat,
{
    match b {
        BlockV::Paragraph(c) => plain_inlines(c),
        BlockV::Heading { content, .. } => plain_inlines(content),
        BlockV::CodeBlock { code, .. } => code,
        BlockV::BlockQuote(bs) => joined(blocks_texts(bs), " "@),
        BlockV::Admonition { blocks, .. } => joined(blocks_texts(blocks), " "@),
        BlockV::List { items, .. } => joined(items_texts(items), " "@),
        BlockV::DefinitionList(d) => joined(terms_texts(d), " "@),
        _ => seq![],
    }
}

pub open spec fn blocks_texts(s: Seq<BlockV>) -> Seq<Seq<char>>
    decreases s, 0nat,
{
    if s.len() == 0 { seq![] } else { blocks_texts(s.drop_last()).push(block_text(s.last())) }
}

pub open spec fn items_texts(s: Seq<ItemV>) -> Seq<Seq<char>>
    decreases s, 0nat,
{
    if s.len() == 0 { seq![] } else { items_texts(s.drop_last()) + blocks_texts(s.last().blocks) }
}

pub open spec fn terms_texts(d: Seq<DefV>) -> Seq<Seq<char>>
    decreases d.len(),
{
    if d.len() == 0 { seq![] } else { terms_texts(d.drop_last()).push(plain_inlines(d.last().term)) }
}

/// Whether `bytes` start with the PNG signature.
pub open spec fn is_png(bytes: Seq<u8>) -> bool {
    bytes.len() >= 8 && bytes.take(8) == seq![137u8, 80u8, 78u8, 71u8, 13u8, 10u8, 26u8, 10u8]
}

/// The size in pixels that the `image` crate reads from the header of `bytes`,
/// or the text of its error.
pub uninterp spec fn png_size(bytes: Seq<u8>) -> Result<(u32, u32), Seq<char>>;

/// What the `image` crate makes of `bytes` decoded and written out again as
/// PNG: the PNG bytes with the width and height, or the text of its error.
pub uninterp spec fn png_reencoded(bytes: Seq<u8>) -> Result<(Seq<u8>, u32, u32), Seq<char>>;

/// The file `bytes` as a PNG with its size: a PNG file is taken as it is,
/// with the size its header gives; any other format is converted to PNG.
pub open spec fn decoded_picture(bytes: Seq<u8>) -> Result<(Seq<u8>, u32, u32), Seq<char>> {
    if is_png(bytes) {
        match png_size(bytes) {
            Ok((w, h)) => Ok((bytes, w, h)),
            Err(e) => Err(e),
        }
    } else {
        png_reencoded(bytes)
    }
}

/// The picture embedded for the file `bytes`: the decoded picture where
/// neither side exceeds `MAX_PICTURE_PX`.
pub open spec fn picture_of(bytes: Seq<u8>) -> Result<(Seq<u8>, u32, u32), Seq<char>> {
    match decoded_picture(bytes) {
        Ok((b, w, h)) => if w <= MAX_PICTURE_PX && h <= MAX_PICTURE_PX {
            Ok((b, w, h))
        } else {
            Err("picture too large to embed"@)
        },
        Err(e) => Err(e),
    }
}

/// The image diagnostics and run.
pub open spec fn d_image(src: Seq<char>, alt: Seq<char>, width: Option<Seq<char>>, e: DocxEnv, st: IS) -> IS {
    match image_decision(e.env, src) {
        DecisionV::Allow(_) => match file_for(e.files, src) {
            Ok(bytes) => match picture_of(bytes) {
                Ok((png, w, h)) => {
                    let st1 = if width is Some { note_i(st, "image width ignored in docx output: "@ + src) } else { st };
                    add_item(st1, DItemV::Run(bare(seq![PieceV::Image(png, w, h)])))
                },
                Err(why) => add_item(note_i(st, "cannot read image "@ + src + ": "@ + why), DItemV::Run(styled(alt, plain_fmt()))),
            },
            Err(why) => add_item(note_i(st, "cannot read image "@ + src + ": "@ + why), DItemV::Run(styled(alt, plain_fmt()))),
        },
        DecisionV::Deny(reason) => add_item(note_i(st, reason), DItemV::Run(styled(alt, Fmt { italic: true, ..plain_fmt() }))),
    }
}

/// Lowering one inline with formatting `f`.
pub open spec fn d_inline(i: InlineV, f: Fmt, e: DocxEnv, st: IS) -> IS
    decreases i, 1nat,
{
    match i {
        InlineV::Text(t) => add_item(st, DItemV::Run(styled(t, f))),
        InlineV::SoftBreak => add_item(st, DItemV::Run(styled(" "@, f))),
        InlineV::LineBreak => add_item(st, DItemV::Run(bare(seq![PieceV::Break]))),
        InlineV::Code(c) => add_item(st, DItemV::Run(styled(c, Fmt { code: true, ..f }))),
        InlineV::Emph(c) => d_inlines(c, Fmt { italic: true, ..f }, e, st),
        InlineV::Strong(c) => d_inlines(c, Fmt { bold: true, ..f }, e, st),
        InlineV::Strikethrough(c) => d_inlines(c, Fmt { strike: true, ..f }, e, st),
        InlineV::Superscript(c) => d_inlines(c, f, e, st),
        InlineV::Link { href, content } => {
            let r = DRunV { color: Some(hex_color(e.link_color)), ..styled(plain_inlines(content), f) };
            add_item(st, DItemV::Link(href, r))
        },
        InlineV::Image { src, alt, width } => d_image(src, alt, width, e, st),
        InlineV::Footnote(blocks) => {
            let id = if st.seq < u64::MAX { (st.seq + 1) as u64 } else { u64::MAX };
            add_item(IS { seq: id, ..st }, DItemV::Run(bare(seq![PieceV::Note(id, blocks_texts(blocks))])))
        },
    }
}

pub open spec fn d_inlines(s: Seq<InlineV>, f: Fmt, e: DocxEnv, st: IS) -> IS
    decreases s, 0nat,
{
    if s.len() == 0 { st } else { d_inline(s.last(), f, e, d_inlines(s.drop_last(), f, e, st)) }
}

// ---------------------------------------------------------------- blocks

/// The body state: parts so far, footnotes numbered so far, diagnostics.
pub struct BS {
    pub parts: Seq<DPartV>,
    pub seq: u64,
    pub diags: Seq<Seq<char>>,
}

pub open spec fn add_part(st: BS, p: DPartV) -> BS {
    BS { parts: st.parts.push(p), ..st }
}

pub open spec fn note_b(st: BS, m: Seq<char>) -> BS {
    BS { diags: st.diags.push(m), ..st }
}

/// The inline state that starts a paragraph.
pub open spec fn start_items(st: BS) -> IS {
    IS { items: seq![], seq: st.seq, diags: st.diags }
}

/// A paragraph of `inlines` in formatting `f`.
pub open spec fn with_para(st: BS, style: Option<Seq<char>>, indent: i64, inlines: Seq<InlineV>, f: Fmt, e: DocxEnv) -> BS {
    let is = d_inlines(inlines, f, e, start_items(st));
    BS { parts: st.parts.push(DPartV::Para(para(style, indent, is.items))), seq: is.seq, diags: is.diags }
}

/// `s` without trailing line feeds.
pub open spec fn trim_newlines(s: Seq<char>) -> Seq<char>
    decreases s.len(),
{
    if s.len() > 0 && s.last() == '\n' { trim_newlines(s.drop_last()) } else { s }
}

/// One line of `str::lines`: its line feed, then a carriage return before
/// it, removed.
pub open spec fn line_text(l: Seq<char>) -> Seq<char> {
    if l.len() > 0 && l.last() == '\n' {
        let m = l.drop_last();
        if m.len() > 0 && m.last() == '\r' { m.drop_last() } else { m }
    } else {
        l
    }
}

/// The pieces of a code block's run from position `i` on: its lines,
/// separated by breaks.
pub open spec fn code_pieces_from(s: Seq<char>, i: int, first: bool) -> Seq<PieceV>
    decreases s.len() - i,
{
    if i < 0 || i >= s.len() {
        seq![]
    } else {
        let e = crate::parser::xml::find_char(s, '\n', i);
        let end = if e < s.len() { e + 1 } else { s.len() as int };
        let here = (if first { seq![] } else { seq![PieceV::Break] }) + seq![PieceV::Text(line_text(s.subrange(i, end)))];
        if i < end { here + code_pieces_from(s, end, false) } else { here }
    }
}

pub open spec fn code_pieces(code: Seq<char>) -> Seq<PieceV> {
    code_pieces_from(trim_newlines(code), 0, true)
}

pub open spec fn accent_of(k: AdmonitionKind) -> Seq<char> {
    match k {
        AdmonitionKind::Note => "0969da"@,
        AdmonitionKind::Tip => "1a7f37"@,
        AdmonitionKind::Important => "8250df"@,
        AdmonitionKind::Warning => "9a6700"@,
        AdmonitionKind::Caution => "cf222e"@,
    }
}

pub open spec fn heading_level(level: u8) -> nat {
    if level < 1 { 1 } else if level > 6 { 6 } else { level as nat }
}

/// The numbering definition a list uses: 2 (decimal) or 1 (bullet).
pub open spec fn num_id(ordered: bool) -> u64 {
    if ordered { 2 } else { 1 }
}

pub open spec fn task_runs(task: Option<bool>) -> Seq<DItemV> {
    match task {
        Some(true) => seq![DItemV::Run(styled("☑ "@, plain_fmt()))],
        Some(false) => seq![DItemV::Run(styled("☐ "@, plain_fmt()))],
        None => seq![],
    }
}

/// The state for table rows: rows so far and the running counters.
pub struct RS {
    pub rows: Seq<Seq<DParaV>>,
    pub seq: u64,
    pub diags: Seq<Seq<char>>,
}

/// The paragraphs of a row being built, with the running counters.
pub struct CS {
    pub paras: Seq<DParaV>,
    pub seq: u64,
    pub diags: Seq<Seq<char>>,
}

/// The cells of one row, each a paragraph of its inlines in formatting `f`.
pub open spec fn d_cells(cells: Seq<Seq<InlineV>>, f: Fmt, e: DocxEnv, st: CS) -> CS
    decreases cells.len(),
{
    if cells.len() == 0 {
        st
    } else {
        let prev = d_cells(cells.drop_last(), f, e, st);
        let is = d_inlines(cells.last(), f, e, IS { items: seq![], seq: prev.seq, diags: prev.diags });
        CS { paras: prev.paras.push(para(None, 0, is.items)), seq: is.seq, diags: is.diags }
    }
}

/// One more table row.
pub open spec fn d_row(cells: Seq<Seq<InlineV>>, f: Fmt, e: DocxEnv, st: RS) -> RS {
    let cs = d_cells(cells, f, e, CS { paras: seq![], seq: st.seq, diags: st.diags });
    RS { rows: st.rows.push(cs.paras), seq: cs.seq, diags: cs.diags }
}

pub open spec fn d_rows(rows: Seq<Seq<Seq<InlineV>>>, e: DocxEnv, st: RS) -> RS
    decreases rows.len(),
{
    if rows.len() == 0 { st } else { d_row(rows.last(), plain_fmt(), e, d_rows(rows.drop_last(), e, st)) }
}

/// A table: a bold header row where there is one, then the body rows; an
/// empty paragraph follows.
pub open spec fn d_table(head: Seq<Seq<InlineV>>, rows: Seq<Seq<Seq<InlineV>>>, e: DocxEnv, st: BS) -> BS {
    let r0 = RS { rows: seq![], seq: st.seq, diags: st.diags };
    let r1 = if head.len() > 0 { d_row(head, Fmt { bold: true, ..plain_fmt() }, e, r0) } else { r0 };
    let r2 = d_rows(rows, e, r1);
    BS {
        parts: st.parts.push(DPartV::Table(r2.rows)).push(DPartV::Para(para(None, 0, seq![]))),
        seq: r2.seq,
        diags: r2.diags,
    }
}

pub open spec fn d_block(b: BlockV, indent: i64, e: DocxEnv, st: BS) -> BS
    decreases b, 2nat,
{
    match b {
        BlockV::Heading { level, content } => with_para(st, Some("Heading"@ + decimal(heading_level(level))), indent, content, plain_fmt(), e),
        BlockV::Paragraph(c) => with_para(st, None, indent, c, plain_fmt(), e),
        BlockV::CodeBlock { lang, code } => {
            let st1 = if lang == Some("mermaid"@) { note_b(st, mermaid_note()) } else { st };
            add_part(st1, DPartV::Para(para(Some("Code"@), indent, seq![DItemV::Run(bare(code_pieces(code)))])))
        },
        BlockV::BlockQuote(bs) => d_quoted_all(bs, deeper(indent, 1), e, st),
        BlockV::List { ordered, items } => d_list(ordered, items, indent, 0, e, st),
        BlockV::Table { head, rows, .. } => d_table(head, rows, e, st),
        BlockV::ThematicBreak => add_part(st, DPartV::Para(DParaV {
            style: None,
            center: true,
            indent: None,
            numbering: None,
            items: seq![DItemV::Run(DRunV { color: Some("b4b4b4"@), ..styled("⸻"@, plain_fmt()) })],
        })),
        BlockV::DefinitionList(d) => d_defs(d, indent, e, st),
        BlockV::Admonition { kind, title, blocks } => {
            let head = DRunV { bold: true, color: Some(accent_of(kind)), ..styled(title, plain_fmt()) };
            d_blocks(blocks, deeper(indent, 1), e, add_part(st, DPartV::Para(para(None, deeper(indent, 1), seq![DItemV::Run(head)]))))
        },
        BlockV::RawHtml(_) => note_b(st, raw_html_note()),
    }
}

pub open spec fn d_blocks(s: Seq<BlockV>, indent: i64, e: DocxEnv, st: BS) -> BS
    decreases s, 1nat,
{
    if s.len() == 0 { st } else { d_block(s.last(), indent, e, d_blocks(s.drop_last(), indent, e, st)) }
}

/// A block inside a quote: paragraphs take the `Quote` style.
pub open spec fn d_quoted(b: BlockV, indent: i64, e: DocxEnv, st: BS) -> BS
    decreases b, 3nat,
{
    match b {
        BlockV::Paragraph(c) => with_para(st, Some("Quote"@), indent, c, plain_fmt(), e),
        _ => d_block(b, indent, e, st),
    }
}

pub open spec fn d_quoted_all(s: Seq<BlockV>, indent: i64, e: DocxEnv, st: BS) -> BS
    decreases s, 1nat,
{
    if s.len() == 0 { st } else { d_quoted(s.last(), indent, e, d_quoted_all(s.drop_last(), indent, e, st)) }
}

pub open spec fn d_defs(d: Seq<DefV>, indent: i64, e: DocxEnv, st: BS) -> BS
    decreases d, 1nat,
{
    if d.len() == 0 {
        st
    } else {
        let prev = d_defs(d.drop_last(), indent, e, st);
        let with_term = with_para(prev, None, indent, d.last().term, Fmt { bold: true, ..plain_fmt() }, e);
        d_blocks(d.last().details, deeper(indent, 1), e, with_term)
    }
}

/// The numbered first paragraph of a list item.
pub open spec fn numbered(st: BS, ordered: bool, task: Option<bool>, level: u64, c: Seq<InlineV>, e: DocxEnv) -> BS {
    let is = d_inlines(c, plain_fmt(), e, IS { items: task_runs(task), seq: st.seq, diags: st.diags });
    let p = DParaV {
        style: None,
        center: false,
        indent: None,
        numbering: Some((num_id(ordered), if level < 8 { level } else { 8 })),
        items: is.items,
    };
    BS { parts: st.parts.push(DPartV::Para(p)), seq: is.seq, diags: is.diags }
}

/// The blocks of one list item: the first paragraph numbered, nested lists
/// one level down, anything else indented past the numbering.
pub open spec fn d_item_blocks(ordered: bool, task: Option<bool>, bs: Seq<BlockV>, indent: i64, level: u64, e: DocxEnv, st: BS) -> (BS, bool)
    decreases bs, 1nat,
{
    if bs.len() == 0 {
        (st, false)
    } else {
        let (prev, done) = d_item_blocks(ordered, task, bs.drop_last(), indent, level, e, st);
        match bs.last() {
            BlockV::Paragraph(c) if !done => (numbered(prev, ordered, task, level, c, e), true),
            BlockV::List { ordered: o2, items } => (d_list(o2, items, indent, if level < u64::MAX { (level + 1) as u64 } else { level }, e, prev), done),
            other => (d_block(other, deeper(indent, level + 1), e, prev), done),
        }
    }
}

pub open spec fn d_list(ordered: bool, items: Seq<ItemV>, indent: i64, level: u64, e: DocxEnv, st: BS) -> BS
    decreases items, 2nat,
{
    if items.len() == 0 {
        st
    } else {
        let prev = d_list(ordered, items.drop_last(), indent, level, e, st);
        d_item_blocks(ordered, items.last().task, items.last().blocks, indent, level, e, prev).0
    }
}

// ---------------------------------------------------------------- the document

/// The title block: title, subtitle, byline, then an empty paragraph.
pub open spec fn d_title(doc: DocumentV, o: OptionsV, st: BS) -> BS {
    match title_of(doc, o.title) {
        None => st,
        Some(t) => if is_blank(t) {
            st
        } else {
            let st1 = add_part(st, DPartV::Para(para(Some("Title"@), 0, seq![DItemV::Run(styled(t, plain_fmt()))])));
            let st2 = match doc.meta.subtitle {
                Some(sub) => add_part(st1, DPartV::Para(para(Some("Subtitle"@), 0, seq![DItemV::Run(styled(sub, plain_fmt()))]))),
                None => st1,
            };
            let st3 = match byline_text(doc.meta) {
                Some(b) => add_part(st2, DPartV::Para(para(Some("Byline"@), 0, seq![DItemV::Run(styled(b, plain_fmt()))]))),
                None => st2,
            };
            add_part(st3, DPartV::Para(para(None, 0, seq![])))
        },
    }
}

/// Author and date, joined by ` — `, where either is set.
pub open spec fn byline_text(meta: MetaV) -> Option<Seq<char>> {
    match (meta.author, meta.date) {
        (Some(a), Some(d)) => Some(a + " — "@ + d),
        (Some(a), None) => Some(a),
        (None, Some(d)) => Some(d),
        (None, None) => None,
    }
}

/// The body: title block, contents field where asked, then the blocks.
pub open spec fn d_body(doc: DocumentV, o: OptionsV, e: DocxEnv) -> BS {
    let st1 = d_title(doc, o, BS { parts: seq![], seq: 0, diags: seq![] });
    let st2 = if o.toc { add_part(st1, DPartV::Contents { first: 1, last: 6, title: CONTENTS_TITLE@, auto: true }) } else { st1 };
    d_blocks(doc.blocks, 0, e, st2)
}

// ---------------------------------------------------------------- styles and furniture

/// A paragraph or character style.
pub struct DStyle {
    pub id: String,
    pub name: String,
    pub paragraph: bool,
    pub size: Option<u64>,
    pub bold: bool,
    pub italic: bool,
    pub color: Option<String>,
    pub center: bool,
    pub font: Option<String>,
}

pub struct DStyleV {
    pub id: Seq<char>,
    pub name: Seq<char>,
    pub paragraph: bool,
    pub size: Option<u64>,
    pub bold: bool,
    pub italic: bool,
    pub color: Option<Seq<char>>,
    pub center: bool,
    pub font: Option<Seq<char>>,
}

pub open spec fn style_v(s: DStyle) -> DStyleV {
    DStyleV {
        id: s.id@,
        name: s.name@,
        paragraph: s.paragraph,
        size: s.size,
        bold: s.bold,
        italic: s.italic,
        color: match s.color { Some(c) => Some(c@), None => None },
        center: s.center,
        font: match s.font { Some(f) => Some(f@), None => None },
    }
}

/// The body size in half-points: twice the point size, rounded half away
/// from zero, as `(f32 * 2.0).round() as usize` gives it for the text an
/// `f32` displays as (negative and `NaN` give 0, `inf` the maximum).
pub open spec fn half_points(s: Seq<char>) -> u64 {
    if s.len() > 0 && s[0] == '-' {
        0
    } else if s == "NaN"@ {
        0
    } else if s == "inf"@ {
        u64::MAX
    } else {
        let ip = digit_run(s, 0);
        let iv = dec_value(s.take(ip));
        let frac = if ip < s.len() && s[ip] == '.' { s.subrange(ip + 1, digit_run(s, ip + 1)) } else { seq![] };
        let adj: int = if frac_order(frac, seq!['7', '5']) >= 0 { 2 } else if frac_order(frac, seq!['2', '5']) >= 0 { 1 } else { 0 };
        let v = 2 * iv + adj;
        if v > u64::MAX { u64::MAX } else { v as u64 }
    }
}

pub open spec fn sat_add(a: u64, b: u64) -> u64 {
    if a + b > u64::MAX { u64::MAX } else { (a + b) as u64 }
}

pub open spec fn sat_sub(a: u64, b: u64) -> u64 {
    if a >= b { (a - b) as u64 } else { 0 }
}

pub open spec fn plain_style(id: Seq<char>, name: Seq<char>, paragraph: bool) -> DStyleV {
    DStyleV { id, name, paragraph, size: None, bold: false, italic: false, color: None, center: false, font: None }
}

pub open spec fn heading_extra(k: nat) -> u64 {
    if k == 1 { 14 } else if k == 2 { 8 } else if k == 3 { 4 } else if k == 4 { 2 } else { 0 }
}

/// Heading `k`'s style: bold, larger, in the heading colour.
pub open spec fn heading_style_of(t: ThemeSpecV, k: nat) -> DStyleV {
    DStyleV {
        size: Some(sat_add(half_points(t.body_size_pt), heading_extra(k))),
        bold: true,
        color: Some(hex_color(t.heading_color)),
        ..plain_style("Heading"@ + decimal(k), "Heading "@ + decimal(k), true)
    }
}

/// The styles the document defines, in order.
pub open spec fn styles_of(t: ThemeSpecV) -> Seq<DStyleV> {
    let body = half_points(t.body_size_pt);
    seq![
        DStyleV { size: Some(sat_add(body, 22)), bold: true, color: Some(hex_color(t.accent_color)), center: true, ..plain_style("Title"@, "Title"@, true) },
        DStyleV { size: Some(sat_add(body, 4)), center: true, ..plain_style("Subtitle"@, "Subtitle"@, true) },
        DStyleV { size: Some(sat_sub(body, 2)), color: Some("5a5a5a"@), center: true, ..plain_style("Byline"@, "Byline"@, true) },
        DStyleV { size: Some(sat_sub(body, 3)), font: Some(t.mono_font), ..plain_style("Code"@, "Code"@, true) },
        DStyleV { font: Some(t.mono_font), ..plain_style(CODE_CHAR_STYLE@, "Code Char"@, false) },
        DStyleV { italic: true, color: Some("444444"@), ..plain_style("Quote"@, "Quote"@, true) },
    ] + Seq::new(6, |k: int| heading_style_of(t, (k + 1) as nat))
}

/// The whole document model.
pub struct DocxModel {
    pub styles: Vec<DStyle>,
    pub header: Option<String>,
    pub footer: Option<String>,
    pub parts: Vec<DPart>,
}

pub struct DocxModelV {
    pub styles: Seq<DStyleV>,
    pub header: Option<Seq<char>>,
    pub footer: Option<Seq<char>>,
    pub parts: Seq<DPartV>,
}

pub open spec fn model_v(m: DocxModel) -> DocxModelV {
    DocxModelV {
        styles: m.styles@.map_values(|s: DStyle| style_v(s)),
        header: match m.header { Some(h) => Some(h@), None => None },
        footer: match m.footer { Some(f) => Some(f@), None => None },
        parts: parts_v(m.parts@),
    }
}

/// The DOCX model of `doc`: theme styles, the running header and footer
/// with placeholders resolved, and the body.
pub open spec fn docx_model(doc: DocumentV, o: OptionsV, e: DocxEnv) -> DocxModelV {
    DocxModelV {
        styles: styles_of(spec_of(o.theme)),
        header: match o.layout.header { Some(t) => Some(substituted(t, doc.meta)), None => None },
        footer: match o.layout.footer { Some(t) => Some(substituted(t, doc.meta)), None => None },
        parts: d_body(doc, o, e).parts,
    }
}

} // verus!
