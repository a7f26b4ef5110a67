//! Writing the DOCX model with `docx-rs`. Every builder call stands behind
//! a wrapper; each value built is held together with a ghost record of what
//! the calls handed to `docx-rs` for it (texts, styles, numbering, parts in
//! order). How `docx-rs` then writes that content out (escaping, dropping
//! line breaks from text, its own defaults) is left to `docx-rs` and not
//! stated. The walk over the model is verified against those records.

use vstd::prelude::*;
use crate::render::docx::model::{bare, item_v, model_v, para_v, part_v, paras_v, piece_v, run_v, style_v, DItem, DItemV, DPara, DParaV, DPart, DPartV, DRun, DRunV, DStyle, DStyleV, DocxModel, DocxModelV, Piece, PieceV, MAX_PICTURE_PX};
use crate::text::decimal;

verus! {

#[verifier::external_type_specification]
#[verifier::external_body]
pub struct ExDocx(docx_rs::Docx);

#[verifier::external_type_specification]
#[verifier::external_body]
pub struct ExStyle(docx_rs::Style);

#[verifier::external_type_specification]
#[verifier::external_body]
pub struct ExParagraph(docx_rs::Paragraph);

#[verifier::external_type_specification]
#[verifier::external_body]
pub struct ExRun(docx_rs::Run);

#[verifier::external_type_specification]
#[verifier::external_body]
pub struct ExHeader(docx_rs::Header);

#[verifier::external_type_specification]
#[verifier::external_body]
pub struct ExFooter(docx_rs::Footer);

#[verifier::external_type_specification]
#[verifier::external_body]
pub struct ExAbstractNumbering(docx_rs::AbstractNumbering);

#[verifier::external_type_specification]
#[verifier::external_body]
pub struct ExLevel(docx_rs::Level);

#[verifier::external_type_specification]
#[verifier::external_body]
pub struct ExFootnote(docx_rs::Footnote);

#[verifier::external_type_specification]
#[verifier::external_body]
pub struct ExHyperlink(docx_rs::Hyperlink);

#[verifier::external_type_specification]
#[verifier::external_body]
pub struct ExTable(docx_rs::Table);

#[verifier::external_type_specification]
#[verifier::external_body]
pub struct ExTableRow(docx_rs::TableRow);

#[verifier::external_type_specification]
#[verifier::external_body]
pub struct ExTableCell(docx_rs::TableCell);

#[verifier::external_type_specification]
#[verifier::external_body]
pub struct ExXMLDocx(docx_rs::XMLDocx);

// ---------------------------------------------------------------- what was handed over

/// A numbering level as handed to `docx-rs`: level, start, number format,
/// level text, justification, and the left and hanging indents (twips).
pub struct LevelV {
    pub level: u64,
    pub start: u64,
    pub format: Seq<char>,
    pub text: Seq<char>,
    pub jc: Seq<char>,
    pub indent: Option<(i64, i64)>,
}

/// What the document was handed beyond what `Docx::new` starts with: the
/// styles, the abstract numberings with their levels, the numberings
/// (id, abstract id), the header and footer paragraphs, and the body parts,
/// each list in the order of the calls.
pub struct DocV {
    pub styles: Seq<DStyleV>,
    pub abstract_nums: Seq<(u64, Seq<LevelV>)>,
    pub nums: Seq<(u64, u64)>,
    pub headers: Seq<DParaV>,
    pub footers: Seq<DParaV>,
    pub body: Seq<DPartV>,
}

/// A `docx-rs` document with the record of what it was handed.
pub struct DocB {
    doc: docx_rs::Docx,
    g: Ghost<DocV>,
}

impl DocB {
    pub closed spec fn model(&self) -> DocV {
        self.g@
    }
}

struct StyleB {
    s: docx_rs::Style,
    g: Ghost<DStyleV>,
}

struct LevelB {
    l: docx_rs::Level,
    g: Ghost<LevelV>,
}

struct AbsB {
    a: docx_rs::AbstractNumbering,
    g: Ghost<(u64, Seq<LevelV>)>,
}

struct ParaB {
    p: docx_rs::Paragraph,
    g: Ghost<DParaV>,
}

struct RunB {
    r: docx_rs::Run,
    g: Ghost<DRunV>,
}

struct LinkB {
    h: docx_rs::Hyperlink,
    g: Ghost<(Seq<char>, DRunV)>,
}

struct NoteB {
    f: docx_rs::Footnote,
    g: Ghost<(u64, Seq<Seq<char>>)>,
}

struct CellB {
    c: docx_rs::TableCell,
    g: Ghost<DParaV>,
}

struct RowB {
    r: docx_rs::TableRow,
    g: Ghost<Seq<DParaV>>,
}

struct TableB {
    t: docx_rs::Table,
    g: Ghost<Seq<Seq<DParaV>>>,
}

// ---------------------------------------------------------------- the document

/// `Docx::new`: nothing handed yet.
#[verifier::external_body]
fn docx_new() -> (out: DocB)
    ensures
        out.g@ == (DocV { styles: seq![], abstract_nums: seq![], nums: seq![], headers: seq![], footers: seq![], body: seq![] }),
{
    DocB {
        doc: docx_rs::Docx::new(),
        g: Ghost(DocV { styles: seq![], abstract_nums: seq![], nums: seq![], headers: seq![], footers: seq![], body: seq![] }),
    }
}

/// `Docx::add_style`: the style is added after those before it.
#[verifier::external_body]
fn docx_add_style(d: DocB, s: StyleB) -> (out: DocB)
    ensures
        out.g@ == (DocV { styles: d.g@.styles.push(s.g@), ..d.g@ }),
{
    let g = Ghost(DocV { styles: d.g@.styles.push(s.g@), ..d.g@ });
    DocB { doc: d.doc.add_style(s.s), g }
}

/// `Docx::add_abstract_numbering`: added after those before it.
#[verifier::external_body]
fn docx_add_abstract_numbering(d: DocB, a: AbsB) -> (out: DocB)
    ensures
        out.g@ == (DocV { abstract_nums: d.g@.abstract_nums.push(a.g@), ..d.g@ }),
{
    let g = Ghost(DocV { abstract_nums: d.g@.abstract_nums.push(a.g@), ..d.g@ });
    DocB { doc: d.doc.add_abstract_numbering(a.a), g }
}

/// `Docx::add_numbering` with `Numbering::new(id, abstract_id)`: added after
/// those before it.
#[verifier::external_body]
fn docx_add_numbering(d: DocB, id: u64, abstract_id: u64) -> (out: DocB)
    ensures
        out.g@ == (DocV { nums: d.g@.nums.push((id, abstract_id)), ..d.g@ }),
{
    let g = Ghost(DocV { nums: d.g@.nums.push((id, abstract_id)), ..d.g@ });
    DocB { doc: d.doc.add_numbering(docx_rs::Numbering::new(id as usize, abstract_id as usize)), g }
}

/// `Docx::header` with `Header::new` holding the one paragraph `p`: a
/// header part added after those before it.
#[verifier::external_body]
fn docx_header(d: DocB, p: ParaB) -> (out: DocB)
    ensures
        out.g@ == (DocV { headers: d.g@.headers.push(p.g@), ..d.g@ }),
{
    let g = Ghost(DocV { headers: d.g@.headers.push(p.g@), ..d.g@ });
    DocB { doc: d.doc.header(docx_rs::Header::new().add_paragraph(p.p)), g }
}

/// `Docx::footer` with `Footer::new` holding the one paragraph `p`: a
/// footer part added after those before it.
#[verifier::external_body]
fn docx_footer(d: DocB, p: ParaB) -> (out: DocB)
    ensures
        out.g@ == (DocV { footers: d.g@.footers.push(p.g@), ..d.g@ }),
{
    let g = Ghost(DocV { footers: d.g@.footers.push(p.g@), ..d.g@ });
    DocB { doc: d.doc.footer(docx_rs::Footer::new().add_paragraph(p.p)), g }
}

/// `Docx::add_paragraph`: appended to the body.
#[verifier::external_body]
fn docx_add_paragraph(d: DocB, p: ParaB) -> (out: DocB)
    ensures
        out.g@ == (DocV { body: d.g@.body.push(DPartV::Para(p.g@)), ..d.g@ }),
{
    let g = Ghost(DocV { body: d.g@.body.push(DPartV::Para(p.g@)), ..d.g@ });
    DocB { doc: d.doc.add_paragraph(p.p), g }
}

/// `Docx::add_table`: appended to the body.
#[verifier::external_body]
fn docx_add_table(d: DocB, t: TableB) -> (out: DocB)
    ensures
        out.g@ == (DocV { body: d.g@.body.push(DPartV::Table(t.g@)), ..d.g@ }),
{
    let g = Ghost(DocV { body: d.g@.body.push(DPartV::Table(t.g@)), ..d.g@ });
    DocB { doc: d.doc.add_table(t.t), g }
}

/// `Docx::add_table_of_contents` with a `TableOfContents` over the heading
/// styles `first` to `last` (`heading_styles_range`), titled `title`
/// (`alias`), its `auto` field as given; appended to the body.
#[verifier::external_body]
fn docx_add_contents(d: DocB, first: u64, last: u64, title: &str, auto: bool) -> (out: DocB)
    ensures
        out.g@ == (DocV { body: d.g@.body.push(DPartV::Contents { first, last, title: title@, auto }), ..d.g@ }),
{
    let g = Ghost(DocV { body: d.g@.body.push(DPartV::Contents { first, last, title: title@, auto }), ..d.g@ });
    let mut toc = docx_rs::TableOfContents::new().heading_styles_range(first as usize, last as usize).alias(title);
    toc.auto = auto;
    DocB { doc: d.doc.add_table_of_contents(toc), g }
}

// ---------------------------------------------------------------- styles and numbering

/// The record of a new style: its id and kind, nothing else set.
pub open spec fn new_style(id: Seq<char>, paragraph: bool) -> DStyleV {
    DStyleV { id, name: seq![], paragraph, size: None, bold: false, italic: false, color: None, center: false, font: None }
}

/// `Style::new` of the paragraph type.
#[verifier::external_body]
fn paragraph_style(id: &str) -> (out: StyleB)
    ensures
        out.g@ == new_style(id@, true),
{
    StyleB { s: docx_rs::Style::new(id, docx_rs::StyleType::Paragraph), g: Ghost(new_style(id@, true)) }
}

/// `Style::new` of the character type.
#[verifier::external_body]
fn character_style(id: &str) -> (out: StyleB)
    ensures
        out.g@ == new_style(id@, false),
{
    StyleB { s: docx_rs::Style::new(id, docx_rs::StyleType::Character), g: Ghost(new_style(id@, false)) }
}

/// `Style::name`.
#[verifier::external_body]
fn style_name(s: StyleB, name: &str) -> (out: StyleB)
    ensures
        out.g@ == (DStyleV { name: name@, ..s.g@ }),
{
    let g = Ghost(DStyleV { name: name@, ..s.g@ });
    StyleB { s: s.s.name(name), g }
}

/// `Style::size` (half-points).
#[verifier::external_body]
fn style_size(s: StyleB, n: u64) -> (out: StyleB)
    ensures
        out.g@ == (DStyleV { size: Some(n), ..s.g@ }),
{
    let g = Ghost(DStyleV { size: Some(n), ..s.g@ });
    StyleB { s: s.s.size(n as usize), g }
}

/// `Style::bold`.
#[verifier::external_body]
fn style_bold(s: StyleB) -> (out: StyleB)
    ensures
        out.g@ == (DStyleV { bold: true, ..s.g@ }),
{
    let g = Ghost(DStyleV { bold: true, ..s.g@ });
    StyleB { s: s.s.bold(), g }
}

/// `Style::italic`.
#[verifier::external_body]
fn style_italic(s: StyleB) -> (out: StyleB)
    ensures
        out.g@ == (DStyleV { italic: true, ..s.g@ }),
{
    let g = Ghost(DStyleV { italic: true, ..s.g@ });
    StyleB { s: s.s.italic(), g }
}

/// `Style::color`.
#[verifier::external_body]
fn style_color(s: StyleB, c: &str) -> (out: StyleB)
    ensures
        out.g@ == (DStyleV { color: Some(c@), ..s.g@ }),
{
    let g = Ghost(DStyleV { color: Some(c@), ..s.g@ });
    StyleB { s: s.s.color(c), g }
}

/// `Style::align` with `AlignmentType::Center`.
#[verifier::external_body]
fn style_center(s: StyleB) -> (out: StyleB)
    ensures
        out.g@ == (DStyleV { center: true, ..s.g@ }),
{
    let g = Ghost(DStyleV { center: true, ..s.g@ });
    StyleB { s: s.s.align(docx_rs::AlignmentType::Center), g }
}

/// `Style::fonts` with `RunFonts::new().ascii(font)`.
#[verifier::external_body]
fn style_font(s: StyleB, font: &str) -> (out: StyleB)
    ensures
        out.g@ == (DStyleV { font: Some(font@), ..s.g@ }),
{
    let g = Ghost(DStyleV { font: Some(font@), ..s.g@ });
    StyleB { s: s.s.fonts(docx_rs::RunFonts::new().ascii(font)), g }
}

/// `AbstractNumbering::new`: no levels yet.
#[verifier::external_body]
fn abstract_numbering(id: u64) -> (out: AbsB)
    ensures
        out.g@ == (id, Seq::<LevelV>::empty()),
{
    AbsB { a: docx_rs::AbstractNumbering::new(id as usize), g: Ghost((id, Seq::<LevelV>::empty())) }
}

/// `AbstractNumbering::add_level`: added after the levels before it.
#[verifier::external_body]
fn add_level(a: AbsB, l: LevelB) -> (out: AbsB)
    ensures
        out.g@ == (a.g@.0, a.g@.1.push(l.g@)),
{
    let g = Ghost((a.g@.0, a.g@.1.push(l.g@)));
    AbsB { a: a.a.add_level(l.l), g }
}

/// `Level::new` from its plain parts.
#[verifier::external_body]
fn level_new(level: u64, start: u64, format: &str, text: &str, jc: &str) -> (out: LevelB)
    ensures
        out.g@ == (LevelV { level, start, format: format@, text: text@, jc: jc@, indent: None }),
{
    LevelB {
        l: docx_rs::Level::new(
            level as usize,
            docx_rs::Start::new(start as usize),
            docx_rs::NumberFormat::new(format),
            docx_rs::LevelText::new(text),
            docx_rs::LevelJc::new(jc),
        ),
        g: Ghost(LevelV { level, start, format: format@, text: text@, jc: jc@, indent: None }),
    }
}

/// `Level::indent` with a left indent and a hanging indent (twips).
#[verifier::external_body]
fn level_indent(l: LevelB, left: i32, hanging: i32) -> (out: LevelB)
    ensures
        out.g@ == (LevelV { indent: Some((left as i64, hanging as i64)), ..l.g@ }),
{
    let g = Ghost(LevelV { indent: Some((left as i64, hanging as i64)), ..l.g@ });
    LevelB { l: l.l.indent(Some(left), Some(docx_rs::SpecialIndentType::Hanging(hanging)), None, None), g }
}

// ---------------------------------------------------------------- paragraphs and runs

/// `Paragraph::new`: no style, items or properties yet.
#[verifier::external_body]
fn para_new() -> (out: ParaB)
    ensures
        out.g@ == (DParaV { style: None, center: false, indent: None, numbering: None, items: seq![] }),
{
    ParaB { p: docx_rs::Paragraph::new(), g: Ghost(DParaV { style: None, center: false, indent: None, numbering: None, items: seq![] }) }
}

/// `Paragraph::style`.
#[verifier::external_body]
fn para_style(p: ParaB, s: &str) -> (out: ParaB)
    ensures
        out.g@ == (DParaV { style: Some(s@), ..p.g@ }),
{
    let g = Ghost(DParaV { style: Some(s@), ..p.g@ });
    ParaB { p: p.p.style(s), g }
}

/// `Paragraph::align` with `AlignmentType::Center`.
#[verifier::external_body]
fn para_center(p: ParaB) -> (out: ParaB)
    ensures
        out.g@ == (DParaV { center: true, ..p.g@ }),
{
    let g = Ghost(DParaV { center: true, ..p.g@ });
    ParaB { p: p.p.align(docx_rs::AlignmentType::Center), g }
}

/// `Paragraph::indent` with a left indent (twips).
#[verifier::external_body]
fn para_indent(p: ParaB, left: i32) -> (out: ParaB)
    ensures
        out.g@ == (DParaV { indent: Some(left as i64), ..p.g@ }),
{
    let g = Ghost(DParaV { indent: Some(left as i64), ..p.g@ });
    ParaB { p: p.p.indent(Some(left), None, None, None), g }
}

/// `Paragraph::numbering`.
#[verifier::external_body]
fn para_numbering(p: ParaB, id: u64, level: u64) -> (out: ParaB)
    ensures
        out.g@ == (DParaV { numbering: Some((id, level)), ..p.g@ }),
{
    let g = Ghost(DParaV { numbering: Some((id, level)), ..p.g@ });
    ParaB { p: p.p.numbering(docx_rs::NumberingId::new(id as usize), docx_rs::IndentLevel::new(level as usize)), g }
}

/// `Paragraph::add_run`: appended after the items before it.
#[verifier::external_body]
fn para_add_run(p: ParaB, r: RunB) -> (out: ParaB)
    ensures
        out.g@ == (DParaV { items: p.g@.items.push(DItemV::Run(r.g@)), ..p.g@ }),
{
    let g = Ghost(DParaV { items: p.g@.items.push(DItemV::Run(r.g@)), ..p.g@ });
    ParaB { p: p.p.add_run(r.r), g }
}

/// `Paragraph::add_hyperlink`: appended after the items before it.
#[verifier::external_body]
fn para_add_link(p: ParaB, h: LinkB) -> (out: ParaB)
    ensures
        out.g@ == (DParaV { items: p.g@.items.push(DItemV::Link(h.g@.0, h.g@.1)), ..p.g@ }),
{
    let g = Ghost(DParaV { items: p.g@.items.push(DItemV::Link(h.g@.0, h.g@.1)), ..p.g@ });
    ParaB { p: p.p.add_hyperlink(h.h), g }
}

/// `Hyperlink::new` of the external type to `href`, holding the run `r`.
#[verifier::external_body]
fn hyperlink(href: &str, r: RunB) -> (out: LinkB)
    ensures
        out.g@ == (href@, r.g@),
{
    let g = Ghost((href@, r.g@));
    LinkB { h: docx_rs::Hyperlink::new(href, docx_rs::HyperlinkType::External).add_run(r.r), g }
}

/// `Run::new`: no pieces, no formatting.
#[verifier::external_body]
fn run_new() -> (out: RunB)
    ensures
        out.g@ == bare(seq![]),
{
    RunB { r: docx_rs::Run::new(), g: Ghost(bare(seq![])) }
}

/// `Run::add_text`: the text appended after the pieces before it.
#[verifier::external_body]
fn run_text(r: RunB, t: &str) -> (out: RunB)
    ensures
        out.g@ == (DRunV { pieces: r.g@.pieces.push(PieceV::Text(t@)), ..r.g@ }),
{
    let g = Ghost(DRunV { pieces: r.g@.pieces.push(PieceV::Text(t@)), ..r.g@ });
    RunB { r: r.r.add_text(t), g }
}

/// `Run::add_break` with `BreakType::TextWrapping`, after the pieces before it.
#[verifier::external_body]
fn run_break(r: RunB) -> (out: RunB)
    ensures
        out.g@ == (DRunV { pieces: r.g@.pieces.push(PieceV::Break), ..r.g@ }),
{
    let g = Ghost(DRunV { pieces: r.g@.pieces.push(PieceV::Break), ..r.g@ });
    RunB { r: r.r.add_break(docx_rs::BreakType::TextWrapping), g }
}

/// `Run::add_image` with `Pic::new_with_dimensions(png, width, height)`,
/// which takes the PNG bytes and size as given, without decoding them; it
/// keeps the size in EMUs, 9525 per pixel, in a `u32`.
#[verifier::external_body]
fn run_image(r: RunB, png: &Vec<u8>, width: u32, height: u32) -> (out: RunB)
    requires
        width <= MAX_PICTURE_PX,
        height <= MAX_PICTURE_PX,
    ensures
        out.g@ == (DRunV { pieces: r.g@.pieces.push(PieceV::Image(png@, width, height)), ..r.g@ }),
{
    let g = Ghost(DRunV { pieces: r.g@.pieces.push(PieceV::Image(png@, width, height)), ..r.g@ });
    RunB { r: r.r.add_image(docx_rs::Pic::new_with_dimensions(png.clone(), width, height)), g }
}

/// `Run::add_footnote_reference` with the footnote `f`. (`docx-rs` also
/// gives the run the `FootnoteReference` style in place of the properties
/// set on it before; the record keeps what was handed.)
#[verifier::external_body]
fn run_footnote(r: RunB, f: NoteB) -> (out: RunB)
    ensures
        out.g@ == (DRunV { pieces: r.g@.pieces.push(PieceV::Note(f.g@.0, f.g@.1)), ..r.g@ }),
{
    let g = Ghost(DRunV { pieces: r.g@.pieces.push(PieceV::Note(f.g@.0, f.g@.1)), ..r.g@ });
    RunB { r: r.r.add_footnote_reference(f.f), g }
}

/// `Run::bold`.
#[verifier::external_body]
fn run_bold(r: RunB) -> (out: RunB)
    ensures
        out.g@ == (DRunV { bold: true, ..r.g@ }),
{
    let g = Ghost(DRunV { bold: true, ..r.g@ });
    RunB { r: r.r.bold(), g }
}

/// `Run::italic`.
#[verifier::external_body]
fn run_italic(r: RunB) -> (out: RunB)
    ensures
        out.g@ == (DRunV { italic: true, ..r.g@ }),
{
    let g = Ghost(DRunV { italic: true, ..r.g@ });
    RunB { r: r.r.italic(), g }
}

/// `Run::strike`.
#[verifier::external_body]
fn run_strike(r: RunB) -> (out: RunB)
    ensures
        out.g@ == (DRunV { strike: true, ..r.g@ }),
{
    let g = Ghost(DRunV { strike: true, ..r.g@ });
    RunB { r: r.r.strike(), g }
}

/// `Run::style`: the run's character style.
#[verifier::external_body]
fn run_style(r: RunB, style: &str) -> (out: RunB)
    ensures
        out.g@ == (DRunV { style: Some(style@), ..r.g@ }),
{
    let g = Ghost(DRunV { style: Some(style@), ..r.g@ });
    RunB { r: r.r.style(style), g }
}

/// `Run::color`.
#[verifier::external_body]
fn run_color(r: RunB, c: &str) -> (out: RunB)
    ensures
        out.g@ == (DRunV { color: Some(c@), ..r.g@ }),
{
    let g = Ghost(DRunV { color: Some(c@), ..r.g@ });
    RunB { r: r.r.color(c), g }
}

/// `Run::size` (half-points).
#[verifier::external_body]
fn run_size(r: RunB, n: u64) -> (out: RunB)
    ensures
        out.g@ == (DRunV { size: Some(n), ..r.g@ }),
{
    let g = Ghost(DRunV { size: Some(n), ..r.g@ });
    RunB { r: r.r.size(n as usize), g }
}

/// A `Footnote` with the given id and no content.
#[verifier::external_body]
fn footnote_new(id: u64) -> (out: NoteB)
    ensures
        out.g@ == (id, Seq::<Seq<char>>::empty()),
{
    NoteB { f: docx_rs::Footnote { id: id as usize, ..Default::default() }, g: Ghost((id, Seq::<Seq<char>>::empty())) }
}

/// `Footnote::add_content` with a paragraph holding one run of `text`,
/// after the paragraphs before it.
#[verifier::external_body]
fn footnote_add_text(f: NoteB, text: &str) -> (out: NoteB)
    ensures
        out.g@ == (f.g@.0, f.g@.1.push(text@)),
{
    let g = Ghost((f.g@.0, f.g@.1.push(text@)));
    let mut note = f.f;
    note = note.add_content(docx_rs::Paragraph::new().add_run(docx_rs::Run::new().add_text(text)));
    NoteB { f: note, g }
}

// ---------------------------------------------------------------- tables

/// `TableCell::new` holding the one paragraph `p`.
#[verifier::external_body]
fn table_cell(p: ParaB) -> (out: CellB)
    ensures
        out.g@ == p.g@,
{
    let g = Ghost(p.g@);
    CellB { c: docx_rs::TableCell::new().add_paragraph(p.p), g }
}

/// `TableRow::new` of the cells, in order.
#[verifier::external_body]
fn table_row(cells: Vec<CellB>) -> (out: RowB)
    ensures
        out.g@ == cells@.map_values(|c: CellB| c.g@),
{
    let g = Ghost(cells@.map_values(|c: CellB| c.g@));
    RowB { r: docx_rs::TableRow::new(cells.into_iter().map(|c| c.c).collect()), g }
}

/// `Table::new` of the rows, in order.
#[verifier::external_body]
fn table_new(rows: Vec<RowB>) -> (out: TableB)
    ensures
        out.g@ == rows@.map_values(|r: RowB| r.g@),
{
    let g = Ghost(rows@.map_values(|r: RowB| r.g@));
    TableB { t: docx_rs::Table::new(rows.into_iter().map(|r| r.r).collect()), g }
}

// ---------------------------------------------------------------- the package

/// The parts of a written package whose paragraph ids are numbered: the
/// main document, the headers, the footers and the footnotes.
pub struct PackageV {
    pub document: Seq<u8>,
    pub headers: Seq<Seq<u8>>,
    pub footers: Seq<Seq<u8>>,
    pub footnotes: Seq<u8>,
}

/// The numbered parts of a package, in numbering order.
pub open spec fn package_parts(p: PackageV) -> Seq<Seq<u8>> {
    seq![p.document] + p.headers + p.footers + seq![p.footnotes]
}

/// A written `docx-rs` package with a record of the document it was written
/// from, the numbered parts as written, and those parts as they are now.
pub struct XmlB {
    x: docx_rs::XMLDocx,
    from: Ghost<DocV>,
    written: Ghost<PackageV>,
    g: Ghost<PackageV>,
}

impl XmlB {
    pub closed spec fn parts(&self) -> PackageV {
        self.g@
    }

    pub closed spec fn made_from(&self) -> DocV {
        self.from@
    }

    pub closed spec fn written(&self) -> PackageV {
        self.written@
    }
}

/// A packed DOCX file, with the record of the document it was written
/// from, the numbered parts as written, and the parts that were packed.
pub struct PackB {
    bytes: Vec<u8>,
    from: Ghost<DocV>,
    written: Ghost<PackageV>,
    packed: Ghost<PackageV>,
}

impl PackB {
    pub closed spec fn made_from(&self) -> DocV {
        self.from@
    }

    pub closed spec fn written(&self) -> PackageV {
        self.written@
    }

    pub closed spec fn packed(&self) -> PackageV {
        self.packed@
    }

    /// The bytes of the file.
    pub fn into_bytes(self) -> Vec<u8> {
        self.bytes
    }
}

/// `Docx::build`: the package parts as XML bytes, recorded as they are,
/// with the record of the document they were written from. Nothing is
/// claimed of the parts: `docx-rs` numbers paragraphs and pictures from
/// counters shared by the whole process.
#[verifier::external_body]
pub(crate) fn docx_build(d: DocB) -> (out: XmlB)
    ensures
        out.made_from() == d.model(),
        out.written() == out.parts(),
{
    let from = Ghost(d.g@);
    let x = d.doc.build();
    let g = Ghost(PackageV {
        document: x.document@,
        headers: x.headers@.map_values(|h: Vec<u8>| h@),
        footers: x.footers@.map_values(|f: Vec<u8>| f@),
        footnotes: x.footnotes@,
    });
    XmlB { x, from, written: g, g }
}

/// Takes the main document part (`XMLDocx::document`) out of the package.
#[verifier::external_body]
pub(crate) fn take_document(x: &mut XmlB) -> (v: Vec<u8>)
    ensures
        v@ == old(x).parts().document,
        final(x).parts() == (PackageV { document: seq![], ..old(x).parts() }),
        final(x).made_from() == old(x).made_from(),
        final(x).written() == old(x).written(),
{
    let g = Ghost(PackageV { document: seq![], ..x.g@ });
    let v = std::mem::take(&mut x.x.document);
    x.g = g;
    v
}

/// Puts the main document part back.
#[verifier::external_body]
pub(crate) fn put_document(x: &mut XmlB, v: Vec<u8>)
    ensures
        final(x).parts() == (PackageV { document: v@, ..old(x).parts() }),
        final(x).made_from() == old(x).made_from(),
        final(x).written() == old(x).written(),
{
    x.g = Ghost(PackageV { document: v@, ..x.g@ });
    x.x.document = v;
}

/// Takes the header parts (`XMLDocx::headers`) out of the package.
#[verifier::external_body]
pub(crate) fn take_headers(x: &mut XmlB) -> (v: Vec<Vec<u8>>)
    ensures
        v@.map_values(|h: Vec<u8>| h@) == old(x).parts().headers,
        final(x).parts() == (PackageV { headers: seq![], ..old(x).parts() }),
        final(x).made_from() == old(x).made_from(),
        final(x).written() == old(x).written(),
{
    let g = Ghost(PackageV { headers: seq![], ..x.g@ });
    let v = std::mem::take(&mut x.x.headers);
    x.g = g;
    v
}

/// Puts the header parts back.
#[verifier::external_body]
pub(crate) fn put_headers(x: &mut XmlB, v: Vec<Vec<u8>>)
    ensures
        final(x).parts() == (PackageV { headers: v@.map_values(|h: Vec<u8>| h@), ..old(x).parts() }),
        final(x).made_from() == old(x).made_from(),
        final(x).written() == old(x).written(),
{
    x.g = Ghost(PackageV { headers: v@.map_values(|h: Vec<u8>| h@), ..x.g@ });
    x.x.headers = v;
}

/// Takes the footer parts (`XMLDocx::footers`) out of the package.
#[verifier::external_body]
pub(crate) fn take_footers(x: &mut XmlB) -> (v: Vec<Vec<u8>>)
    ensures
        v@.map_values(|f: Vec<u8>| f@) == old(x).parts().footers,
        final(x).parts() == (PackageV { footers: seq![], ..old(x).parts() }),
        final(x).made_from() == old(x).made_from(),
        final(x).written() == old(x).written(),
{
    let g = Ghost(PackageV { footers: seq![], ..x.g@ });
    let v = std::mem::take(&mut x.x.footers);
    x.g = g;
    v
}

/// Puts the footer parts back.
#[verifier::external_body]
pub(crate) fn put_footers(x: &mut XmlB, v: Vec<Vec<u8>>)
    ensures
        final(x).parts() == (PackageV { footers: v@.map_values(|f: Vec<u8>| f@), ..old(x).parts() }),
        final(x).made_from() == old(x).made_from(),
        final(x).written() == old(x).written(),
{
    x.g = Ghost(PackageV { footers: v@.map_values(|f: Vec<u8>| f@), ..x.g@ });
    x.x.footers = v;
}

/// Takes the footnotes part (`XMLDocx::footnotes`) out of the package.
#[verifier::external_body]
pub(crate) fn take_footnotes(x: &mut XmlB) -> (v: Vec<u8>)
    ensures
        v@ == old(x).parts().footnotes,
        final(x).parts() == (PackageV { footnotes: seq![], ..old(x).parts() }),
        final(x).made_from() == old(x).made_from(),
        final(x).written() == old(x).written(),
{
    let g = Ghost(PackageV { footnotes: seq![], ..x.g@ });
    let v = std::mem::take(&mut x.x.footnotes);
    x.g = g;
    v
}

/// Puts the footnotes part back.
#[verifier::external_body]
pub(crate) fn put_footnotes(x: &mut XmlB, v: Vec<u8>)
    ensures
        final(x).parts() == (PackageV { footnotes: v@, ..old(x).parts() }),
        final(x).made_from() == old(x).made_from(),
        final(x).written() == old(x).written(),
{
    x.g = Ghost(PackageV { footnotes: v@, ..x.g@ });
    x.x.footnotes = v;
}

/// `XMLDocx::pack` into memory: the zip bytes, or the zip error's text.
/// Nothing is claimed of the bytes beyond the record of the package they
/// were packed from.
#[verifier::external_body]
pub(crate) fn pack(x: XmlB) -> (r: Result<PackB, String>)
    ensures
        r matches Ok(p) ==> p.made_from() == x.made_from() && p.written() == x.written() && p.packed() == x.parts(),
{
    let from = x.from;
    let written = x.written;
    let packed = x.g;
    let mut buf = std::io::Cursor::new(Vec::new());
    match x.x.pack(&mut buf) {
        Ok(()) => Ok(PackB { bytes: buf.into_inner(), from, written, packed }),
        Err(e) => Err(e.to_string()),
    }
}

// ---------------------------------------------------------------- what a model hands over

/// `n` saturated to the 32-bit range that `docx-rs` takes indents in.
pub open spec fn clamp32(n: i64) -> i64 {
    if n > i32::MAX { i32::MAX as i64 } else if n < i32::MIN { i32::MIN as i64 } else { n }
}

/// A paragraph as handed over: the model's paragraph, its indent saturated
/// to 32 bits.
pub open spec fn handed_para(p: DParaV) -> DParaV {
    DParaV { indent: match p.indent { Some(n) => Some(clamp32(n)), None => None }, ..p }
}

pub open spec fn handed_rows(rows: Seq<Seq<DParaV>>) -> Seq<Seq<DParaV>> {
    rows.map_values(|r: Seq<DParaV>| r.map_values(|c: DParaV| handed_para(c)))
}

pub open spec fn handed_part(p: DPartV) -> DPartV {
    match p {
        DPartV::Para(x) => DPartV::Para(handed_para(x)),
        DPartV::Table(rows) => DPartV::Table(handed_rows(rows)),
        DPartV::Contents { first, last, title, auto } => DPartV::Contents { first, last, title, auto },
    }
}

/// Level `i` of the bullet or the decimal list numbering: numbered from 1,
/// left-justified, indented half an inch per level with a 320-twip hang.
pub open spec fn level_v(bullet: bool, i: nat) -> LevelV {
    LevelV {
        level: i as u64,
        start: 1,
        format: if bullet { "bullet"@ } else { "decimal"@ },
        text: if bullet { "•"@ } else { "%"@ + decimal(i + 1) + "."@ },
        jc: "left"@,
        indent: Some((((i + 1) * 720) as i64, 320i64)),
    }
}

/// The nine levels of the bullet or the decimal list numbering.
pub open spec fn list_levels(bullet: bool) -> Seq<LevelV> {
    Seq::new(9, |i: int| level_v(bullet, i as nat))
}

/// A header or footer paragraph: one run of the text, 9pt, grey.
pub open spec fn furniture(text: Seq<char>, center: bool) -> DParaV {
    DParaV {
        style: None,
        center,
        indent: None,
        numbering: None,
        items: seq![DItemV::Run(DRunV { pieces: seq![PieceV::Text(text)], bold: false, italic: false, strike: false, style: None, color: Some("787878"@), size: Some(18) })],
    }
}

/// What the document is handed for a model: its styles in order, the bullet
/// (1) and decimal (2) list numberings, the header and footer, and the body
/// parts in order.
pub open spec fn docx_parts(m: DocxModelV) -> DocV {
    DocV {
        styles: m.styles,
        abstract_nums: seq![(1u64, list_levels(true)), (2u64, list_levels(false))],
        nums: seq![(1u64, 1u64), (2u64, 2u64)],
        headers: match m.header { Some(h) => seq![furniture(h, true)], None => seq![] },
        footers: match m.footer { Some(f) => seq![furniture(f, false)], None => seq![] },
        body: m.parts.map_values(|p: DPartV| handed_part(p)),
    }
}

// ---------------------------------------------------------------- the walk

fn build_note(id: u64, paras: &Vec<String>) -> (out: NoteB)
    ensures
        out.g@ == (id, paras@.map_values(|x: String| x@)),
{
    let mut note = footnote_new(id);
    let mut k: usize = 0;
    assert(paras@.take(0).map_values(|x: String| x@) =~= Seq::<Seq<char>>::empty());
    while k < paras.len()
        invariant
            k <= paras@.len(),
            note.g@ == (id, paras@.take(k as int).map_values(|x: String| x@)),
        decreases paras.len() - k,
    {
        note = footnote_add_text(note, paras[k].as_str());
        assert(paras@.take(k + 1).map_values(|x: String| x@) =~= paras@.take(k as int).map_values(|x: String| x@).push(paras@[k as int]@));
        k = k + 1;
    }
    assert(paras@.take(k as int) =~= paras@);
    note
}

fn build_run(r: &DRun) -> (out: RunB)
    ensures
        out.g@ == run_v(*r),
{
    let mut run = run_new();
    let mut i: usize = 0;
    assert(r.pieces@.take(0).map_values(|p: Piece| piece_v(p)) =~= Seq::<PieceV>::empty());
    while i < r.pieces.len()
        invariant
            i <= r.pieces@.len(),
            run.g@ == bare(r.pieces@.take(i as int).map_values(|p: Piece| piece_v(p))),
        decreases r.pieces.len() - i,
    {
        run = match &r.pieces[i] {
            Piece::Text(t) => run_text(run, t.as_str()),
            Piece::Break => run_break(run),
            Piece::Image(pic) => {
                let (w, h) = pic.size();
                run_image(run, pic.png(), w, h)
            },
            Piece::Note(id, paras) => run_footnote(run, build_note(*id, paras)),
        };
        assert(r.pieces@.take(i + 1).map_values(|p: Piece| piece_v(p))
            =~= r.pieces@.take(i as int).map_values(|p: Piece| piece_v(p)).push(piece_v(r.pieces@[i as int])));
        i = i + 1;
    }
    assert(r.pieces@.take(i as int) =~= r.pieces@);
    if r.bold {
        run = run_bold(run);
    }
    if r.italic {
        run = run_italic(run);
    }
    if r.strike {
        run = run_strike(run);
    }
    match &r.style {
        Some(st) => run = run_style(run, st.as_str()),
        None => {},
    }
    match &r.color {
        Some(c) => run = run_color(run, c.as_str()),
        None => {},
    }
    match r.size {
        Some(n) => run = run_size(run, n),
        None => {},
    }
    run
}

fn clamp_i32(n: i64) -> (k: i32)
    ensures
        k as i64 == clamp32(n),
{
    if n > 2147483647i64 {
        2147483647i32
    } else if n < -2147483648i64 {
        -2147483648i32
    } else {
        n as i32
    }
}

fn build_para(p: &DPara) -> (out: ParaB)
    ensures
        out.g@ == handed_para(para_v(*p)),
{
    let mut para = para_new();
    match &p.style {
        Some(s) => para = para_style(para, s.as_str()),
        None => {},
    }
    if p.center {
        para = para_center(para);
    }
    match p.numbering {
        Some((id, level)) => para = para_numbering(para, id, level),
        None => {},
    }
    let ghost pv = para_v(*p);
    let mut i: usize = 0;
    assert(p.items@.take(0).map_values(|x: DItem| item_v(x)) =~= Seq::<DItemV>::empty());
    while i < p.items.len()
        invariant
            i <= p.items@.len(),
            pv == para_v(*p),
            para.g@ == (DParaV { indent: None, items: p.items@.take(i as int).map_values(|x: DItem| item_v(x)), ..pv }),
        decreases p.items.len() - i,
    {
        para = match &p.items[i] {
            DItem::Run(r) => para_add_run(para, build_run(r)),
            DItem::Link(href, r) => para_add_link(para, hyperlink(href.as_str(), build_run(r))),
        };
        assert(p.items@.take(i + 1).map_values(|x: DItem| item_v(x))
            =~= p.items@.take(i as int).map_values(|x: DItem| item_v(x)).push(item_v(p.items@[i as int])));
        i = i + 1;
    }
    assert(p.items@.take(i as int) =~= p.items@);
    match p.indent {
        Some(n) => para = para_indent(para, clamp_i32(n)),
        None => {},
    }
    para
}

/// A table row as handed over.
pub open spec fn handed_row(r: Seq<DPara>) -> Seq<DParaV> {
    r.map_values(|c: DPara| handed_para(para_v(c)))
}

fn build_table(rows: &Vec<Vec<DPara>>) -> (out: TableB)
    ensures
        out.g@ == rows@.map_values(|r: Vec<DPara>| handed_row(r@)),
{
    let mut out: Vec<RowB> = Vec::new();
    let mut i: usize = 0;
    assert(rows@.take(0).map_values(|r: Vec<DPara>| handed_row(r@)) =~= Seq::<Seq<DParaV>>::empty());
    assert(out@.map_values(|r: RowB| r.g@) =~= Seq::<Seq<DParaV>>::empty());
    while i < rows.len()
        invariant
            i <= rows@.len(),
            out@.map_values(|r: RowB| r.g@) == rows@.take(i as int).map_values(|r: Vec<DPara>| handed_row(r@)),
        decreases rows.len() - i,
    {
        let row = &rows[i];
        let mut cells: Vec<CellB> = Vec::new();
        let mut k: usize = 0;
        assert(row@.take(0).map_values(|c: DPara| handed_para(para_v(c))) =~= Seq::<DParaV>::empty());
        assert(cells@.map_values(|c: CellB| c.g@) =~= Seq::<DParaV>::empty());
        while k < row.len()
            invariant
                k <= row@.len(),
                cells@.map_values(|c: CellB| c.g@) == row@.take(k as int).map_values(|c: DPara| handed_para(para_v(c))),
            decreases row.len() - k,
        {
            let ghost before = cells@;
            cells.push(table_cell(build_para(&row[k])));
            assert(cells@.map_values(|c: CellB| c.g@) =~= before.map_values(|c: CellB| c.g@).push(cells@[k as int].g@));
            assert(row@.take(k + 1).map_values(|c: DPara| handed_para(para_v(c)))
                =~= row@.take(k as int).map_values(|c: DPara| handed_para(para_v(c))).push(handed_para(para_v(row@[k as int]))));
            k = k + 1;
        }
        assert(row@.take(k as int) =~= row@);
        let ghost before = out@;
        out.push(table_row(cells));
        assert(out@.map_values(|r: RowB| r.g@) =~= before.map_values(|r: RowB| r.g@).push(out@[i as int].g@));
        assert(rows@.take(i + 1).map_values(|r: Vec<DPara>| handed_row(r@))
            =~= rows@.take(i as int).map_values(|r: Vec<DPara>| handed_row(r@)).push(handed_row(rows@[i as int]@)));
        i = i + 1;
    }
    assert(rows@.take(i as int) =~= rows@);
    table_new(out)
}

fn build_style(s: &DStyle) -> (out: StyleB)
    ensures
        out.g@ == style_v(*s),
{
    let mut st = if s.paragraph { paragraph_style(s.id.as_str()) } else { character_style(s.id.as_str()) };
    st = style_name(st, s.name.as_str());
    match s.size {
        Some(n) => st = style_size(st, n),
        None => {},
    }
    if s.bold {
        st = style_bold(st);
    }
    if s.italic {
        st = style_italic(st);
    }
    match &s.color {
        Some(c) => st = style_color(st, c.as_str()),
        None => {},
    }
    if s.center {
        st = style_center(st);
    }
    match &s.font {
        Some(f) => st = style_font(st, f.as_str()),
        None => {},
    }
    st
}

/// Adds the bullet (1) and decimal (2) list numberings, nine levels each,
/// every level indented one more half inch with a 320-twip hanging indent.
fn add_numberings(d: DocB) -> (out: DocB)
    ensures
        out.g@ == (DocV {
            abstract_nums: d.g@.abstract_nums + seq![(1u64, list_levels(true)), (2u64, list_levels(false))],
            nums: d.g@.nums + seq![(1u64, 1u64), (2u64, 2u64)],
            ..d.g@
        }),
{
    let ghost d0 = d.g@;
    let mut bullet = abstract_numbering(1);
    let mut decimal = abstract_numbering(2);
    let mut level: u64 = 0;
    assert(list_levels(true).take(0) =~= Seq::<LevelV>::empty());
    assert(list_levels(false).take(0) =~= Seq::<LevelV>::empty());
    while level < 9
        invariant
            level <= 9,
            bullet.g@ == (1u64, list_levels(true).take(level as int)),
            decimal.g@ == (2u64, list_levels(false).take(level as int)),
        decreases 9 - level,
    {
        let indent: i32 = (level as i32 + 1) * 720;
        bullet = add_level(bullet, level_indent(level_new(level, 1, "bullet", "•", "left"), indent, 320));
        let mut text = crate::text::owned("%");
        let n = crate::text::decimal_string(level + 1);
        text.append(n.as_str());
        text.append(".");
        decimal = add_level(decimal, level_indent(level_new(level, 1, "decimal", text.as_str(), "left"), indent, 320));
        assert(list_levels(true).take(level + 1) =~= list_levels(true).take(level as int).push(level_v(true, level as nat)));
        assert(list_levels(false).take(level + 1) =~= list_levels(false).take(level as int).push(level_v(false, level as nat)));
        level = level + 1;
    }
    assert(list_levels(true).take(9) =~= list_levels(true));
    assert(list_levels(false).take(9) =~= list_levels(false));
    let d = docx_add_abstract_numbering(d, bullet);
    let d = docx_add_numbering(d, 1, 1);
    let d = docx_add_abstract_numbering(d, decimal);
    let out = docx_add_numbering(d, 2, 2);
    assert(out.g@.abstract_nums =~= d0.abstract_nums + seq![(1u64, list_levels(true)), (2u64, list_levels(false))]);
    assert(out.g@.nums =~= d0.nums + seq![(1u64, 1u64), (2u64, 2u64)]);
    out
}

/// A paragraph of furniture text: one run, 9pt, grey.
fn furniture_para(text: &str, center: bool) -> (out: ParaB)
    ensures
        out.g@ == furniture(text@, center),
{
    let run = run_color(run_size(run_text(run_new(), text), 18), "787878");
    let p = para_new();
    let p = if center { para_center(p) } else { p };
    let out = para_add_run(p, run);
    assert(out.g@.items =~= furniture(text@, center).items);
    assert(run.g@.pieces =~= seq![PieceV::Text(text@)]);
    out
}

/// The `docx-rs` document for a model: handed its styles, the two list
/// numberings, the header and footer, and every body part, in order.
pub fn build_docx(m: &DocxModel) -> (out: DocB)
    ensures
        out.model() == docx_parts(model_v(*m)),
{
    let ghost mv = model_v(*m);
    let mut d = docx_new();
    let mut i: usize = 0;
    assert(m.styles@.take(0).map_values(|s: DStyle| style_v(s)) =~= Seq::<DStyleV>::empty());
    while i < m.styles.len()
        invariant
            i <= m.styles@.len(),
            d.g@ == (DocV { styles: m.styles@.take(i as int).map_values(|s: DStyle| style_v(s)), abstract_nums: seq![], nums: seq![], headers: seq![], footers: seq![], body: seq![] }),
        decreases m.styles.len() - i,
    {
        d = docx_add_style(d, build_style(&m.styles[i]));
        assert(m.styles@.take(i + 1).map_values(|s: DStyle| style_v(s))
            =~= m.styles@.take(i as int).map_values(|s: DStyle| style_v(s)).push(style_v(m.styles@[i as int])));
        i = i + 1;
    }
    assert(m.styles@.take(i as int) =~= m.styles@);
    d = add_numberings(d);
    match &m.header {
        Some(h) => d = docx_header(d, furniture_para(h.as_str(), true)),
        None => {},
    }
    match &m.footer {
        Some(f) => d = docx_footer(d, furniture_para(f.as_str(), false)),
        None => {},
    }
    let ghost fixed = d.g@;
    let mut k: usize = 0;
    assert(m.parts@.take(0).map_values(|p: DPart| handed_part(part_v(p))) =~= Seq::<DPartV>::empty());
    while k < m.parts.len()
        invariant
            k <= m.parts@.len(),
            d.g@ == (DocV { body: m.parts@.take(k as int).map_values(|p: DPart| handed_part(part_v(p))), ..fixed }),
            fixed.body == Seq::<DPartV>::empty(),
        decreases m.parts.len() - k,
    {
        d = match &m.parts[k] {
            DPart::Para(p) => docx_add_paragraph(d, build_para(p)),
            DPart::Table(rows) => {
                let t = build_table(rows);
                proof { lemma_handed_table(rows@); }
                docx_add_table(d, t)
            },
            DPart::Contents { first, last, title, auto } => docx_add_contents(d, *first, *last, title.as_str(), *auto),
        };
        assert(m.parts@.take(k + 1).map_values(|p: DPart| handed_part(part_v(p)))
            =~= m.parts@.take(k as int).map_values(|p: DPart| handed_part(part_v(p))).push(handed_part(part_v(m.parts@[k as int]))));
        k = k + 1;
    }
    assert(m.parts@.take(k as int) =~= m.parts@);
    assert(m.parts@.map_values(|p: DPart| handed_part(part_v(p))) =~= mv.parts.map_values(|p: DPartV| handed_part(p)));
    d
}

proof fn lemma_handed_table(rows: Seq<Vec<DPara>>)
    ensures
        rows.map_values(|r: Vec<DPara>| handed_row(r@)) == handed_rows(rows.map_values(|r: Vec<DPara>| paras_v(r@))),
{
    let a = rows.map_values(|r: Vec<DPara>| handed_row(r@));
    let b = handed_rows(rows.map_values(|r: Vec<DPara>| paras_v(r@)));
    assert forall|i: int| 0 <= i < rows.len() implies #[trigger] a[i] == b[i] by {
        assert(handed_row(rows[i]@) =~= paras_v(rows[i]@).map_values(|c: DParaV| handed_para(c)));
    }
    assert(a =~= b);
}

} // verus!
