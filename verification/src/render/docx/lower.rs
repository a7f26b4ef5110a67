//! Lowering a document to the DOCX model.

use vstd::prelude::*;
use crate::ir::{blocks_v, cells_v, defs_v, inline_text, inlines_v, items_v, lemma_blocks_v_step, lemma_cells_v_step, lemma_defs_v_step, lemma_inlines_v_step, lemma_items_v_step, lemma_rows_v_step, opt_v, rows_v, AdmonitionKind, Block, DefinitionItem, Document, Inline, ListItem};
use crate::parser::xml::{find_char_in, lemma_find_char};
use crate::render::{messages, note, Diagnostic, RenderOptions};
use crate::render::docx::model::{accent_of, code_style, CODE_CHAR_STYLE, CONTENTS_TITLE, add_item, add_part, bare, block_text, blocks_texts, code_pieces, code_pieces_from, d_block, d_blocks, d_body, d_cells, d_defs, d_row, docx_model, half_points, heading_style_of, model_v, plain_style, picture_of, Picture, png_reencoded, png_size, sat_add, sat_sub, style_v, styles_of, DStyle, DocxModel, d_image, d_inline, d_inlines, d_item_blocks, d_list, d_quoted, d_quoted_all, d_rows, d_table, d_title, deeper, file_for, heading_level, hex_color, item_v, items_texts, joined, line_text, note_b, note_i, numbered, para, para_v, paras_v, part_v, parts_v, piece_v, plain_fmt, run_v, start_items, strings_v, styled, task_runs, terms_texts, trim_newlines, with_para, BS, DItem, DItemV, DPara, DParaV, DPart, DPartV, DRun, DocxEnv, Fmt, Piece, PieceV, IS, RS, CS};
use crate::render::typst::{blank, env_of, title_override};
use crate::security::{AssetDecision, AssetProbes, SecurityPolicy};
use crate::text::{chars_of, decimal, decimal_string, owned, push_range, same, string_of_range};
use crate::parser::dimension::{digit_run_in, frac_order_in, lemma_digit_run, saturated_value, EXP_CAP};
use crate::ir::Meta;
use crate::render::{substitute_meta, substituted};
use crate::theme::{spec_of, ThemeSpec};

verus! {

/// The files read for allowed images: `src` and its bytes or the reason
/// they could not be read.
pub struct AssetFiles {
    pub entries: Vec<(String, Result<Vec<u8>, String>)>,
}

/// Everything inline lowering reads.
pub struct DocxInput<'a> {
    pub policy: &'a SecurityPolicy,
    pub probes: &'a AssetProbes,
    pub files: &'a AssetFiles,
    pub link_color: String,
}

pub open spec fn input_v(e: DocxInput) -> DocxEnv {
    DocxEnv { env: env_of(e.policy, e.probes), files: e.files.entries@, link_color: e.link_color@ }
}

/// The lowering state: body parts, the paragraph being filled, the
/// footnote counter and the diagnostics.
pub struct DocxCtx {
    pub parts: Vec<DPart>,
    pub items: Vec<DItem>,
    pub seq: u64,
    pub diags: Vec<Diagnostic>,
}

pub open spec fn items_of(s: Seq<DItem>) -> Seq<DItemV> {
    s.map_values(|i: DItem| item_v(i))
}

pub open spec fn is_of(c: DocxCtx) -> IS {
    IS { items: items_of(c.items@), seq: c.seq, diags: messages(c.diags@) }
}

pub open spec fn bs_of(c: DocxCtx) -> BS {
    BS { parts: parts_v(c.parts@), seq: c.seq, diags: messages(c.diags@) }
}

fn push_item(c: &mut DocxCtx, i: DItem)
    ensures
        is_of(*final(c)) == add_item(is_of(*old(c)), item_v(i)),
        final(c).parts == old(c).parts,
{
    c.items.push(i);
    assert(items_of(c.items@) =~= items_of(old(c).items@).push(item_v(i)));
}

fn push_part(c: &mut DocxCtx, p: DPart)
    ensures
        bs_of(*final(c)) == add_part(bs_of(*old(c)), part_v(p)),
{
    c.parts.push(p);
    assert(parts_v(c.parts@) =~= parts_v(old(c).parts@).push(part_v(p)));
}

fn text_run(t: String, f: Fmt) -> (r: DRun)
    ensures
        run_v(r) == styled(t@, f),
{
    let mut pieces: Vec<Piece> = Vec::new();
    pieces.push(Piece::Text(t));
    let style = if f.code { Some(owned(CODE_CHAR_STYLE)) } else { None };
    let r = DRun { pieces, bold: f.bold, italic: f.italic, strike: f.strike, style, color: None, size: None };
    assert(run_v(r).pieces =~= seq![PieceV::Text(t@)]);
    r
}

fn bare_run(p: Piece) -> (r: DRun)
    ensures
        run_v(r) == bare(seq![piece_v(p)]),
{
    let mut pieces: Vec<Piece> = Vec::new();
    pieces.push(p);
    let r = DRun { pieces, bold: false, italic: false, strike: false, style: None, color: None, size: None };
    assert(run_v(r).pieces =~= seq![piece_v(p)]);
    r
}

fn copy_bytes(v: &Vec<u8>) -> (r: Vec<u8>)
    ensures
        r@ == v@,
{
    let mut r: Vec<u8> = Vec::new();
    let mut i: usize = 0;
    while i < v.len()
        invariant
            i <= v@.len(),
            r@ == v@.take(i as int),
        decreases v.len() - i,
    {
        r.push(v[i]);
        assert(r@ =~= v@.take(i + 1));
        i = i + 1;
    }
    assert(v@.take(i as int) =~= v@);
    r
}

impl AssetFiles {
    /// The bytes read for `src` (the last entry for it), or why not.
    pub fn lookup(&self, src: &str) -> (r: Result<Vec<u8>, String>)
        ensures
            match r {
                Ok(b) => file_for(self.entries@, src@) == Ok::<Seq<u8>, Seq<char>>(b@),
                Err(e) => file_for(self.entries@, src@) == Err::<Seq<u8>, Seq<char>>(e@),
            },
    {
        let mut n = self.entries.len();
        assert(self.entries@.take(n as int) =~= self.entries@);
        while n > 0
            invariant
                n <= self.entries@.len(),
                file_for(self.entries@, src@) == file_for(self.entries@.take(n as int), src@),
            decreases n,
        {
            assert(self.entries@.take(n as int).drop_last() =~= self.entries@.take(n - 1));
            if same(self.entries[n - 1].0.as_str(), src) {
                return match &self.entries[n - 1].1 {
                    Ok(b) => Ok(copy_bytes(b)),
                    Err(e) => Err(e.clone()),
                };
            }
            n = n - 1;
        }
        assert(self.entries@.take(0) =~= Seq::<(String, Result<Vec<u8>, String>)>::empty());
        Err(owned("not read"))
    }
}

fn add_note(c: &mut DocxCtx, m: String)
    ensures
        is_of(*final(c)) == note_i(is_of(*old(c)), m@),
        bs_of(*final(c)) == note_b(bs_of(*old(c)), m@),
        final(c).parts == old(c).parts,
        final(c).items == old(c).items,
{
    note(&mut c.diags, m);
}

/// `image::ImageReader::new` over `bytes`, `with_guessed_format`, then
/// `into_dimensions`: the width and height that the header gives, or the
/// text of the error. Claimed: the result is `png_size` of the bytes.
#[verifier::external_body]
fn read_png_size(bytes: &Vec<u8>) -> (r: Result<(u32, u32), String>)
    ensures
        match r {
            Ok(d) => png_size(bytes@) == Ok::<(u32, u32), Seq<char>>(d),
            Err(e) => png_size(bytes@) == Err::<(u32, u32), Seq<char>>(e@),
        },
{
    let reader = match image::ImageReader::new(std::io::Cursor::new(bytes.as_slice())).with_guessed_format() {
        Ok(r) => r,
        Err(e) => return Err(e.to_string()),
    };
    reader.into_dimensions().map_err(|e| e.to_string())
}

/// `image::load_from_memory` on `bytes`, the decoded image's dimensions,
/// and `DynamicImage::write_to` as PNG into memory: the PNG bytes with width
/// and height, or the text of the error. Claimed: the result is
/// `png_reencoded` of the bytes.
#[verifier::external_body]
fn reencode_png(bytes: &Vec<u8>) -> (r: Result<(Vec<u8>, u32, u32), String>)
    ensures
        match r {
            Ok((b, w, h)) => png_reencoded(bytes@) == Ok::<(Seq<u8>, u32, u32), Seq<char>>((b@, w, h)),
            Err(e) => png_reencoded(bytes@) == Err::<(Seq<u8>, u32, u32), Seq<char>>(e@),
        },
{
    let img = image::load_from_memory(bytes.as_slice()).map_err(|e| e.to_string())?;
    let (w, h) = image::GenericImageView::dimensions(&img);
    let mut buf = std::io::Cursor::new(Vec::new());
    img.write_to(&mut buf, image::ImageFormat::Png).map_err(|e| e.to_string())?;
    Ok((buf.into_inner(), w, h))
}

/// The picture to embed for the file `bytes`: a PNG with its size, or why
/// the file cannot be embedded.
pub fn picture(bytes: &Vec<u8>) -> (r: Result<Picture, String>)
    ensures
        match r {
            Ok(p) => picture_of(bytes@) == Ok::<(Seq<u8>, u32, u32), Seq<char>>(p@),
            Err(e) => picture_of(bytes@) == Err::<(Seq<u8>, u32, u32), Seq<char>>(e@),
        },
{
    let png = bytes.len() >= 8 && bytes[0] == 137u8 && bytes[1] == 80u8 && bytes[2] == 78u8 && bytes[3] == 71u8
        && bytes[4] == 13u8 && bytes[5] == 10u8 && bytes[6] == 26u8 && bytes[7] == 10u8;
    proof {
        if bytes@.len() >= 8 {
            assert(png == (bytes@.take(8) == seq![137u8, 80u8, 78u8, 71u8, 13u8, 10u8, 26u8, 10u8])) by {
                if png {
                    assert(bytes@.take(8) =~= seq![137u8, 80u8, 78u8, 71u8, 13u8, 10u8, 26u8, 10u8]);
                } else if bytes@.take(8) == seq![137u8, 80u8, 78u8, 71u8, 13u8, 10u8, 26u8, 10u8] {
                    assert(bytes@.take(8)[0] == bytes@[0]);
                    assert(bytes@.take(8)[1] == bytes@[1]);
                    assert(bytes@.take(8)[2] == bytes@[2]);
                    assert(bytes@.take(8)[3] == bytes@[3]);
                    assert(bytes@.take(8)[4] == bytes@[4]);
                    assert(bytes@.take(8)[5] == bytes@[5]);
                    assert(bytes@.take(8)[6] == bytes@[6]);
                    assert(bytes@.take(8)[7] == bytes@[7]);
                }
            }
        }
    }
    let decoded = if png {
        match read_png_size(bytes) {
            Ok((w, h)) => Ok((bytes.clone(), w, h)),
            Err(e) => Err(e),
        }
    } else {
        reencode_png(bytes)
    };
    match decoded {
        Ok((b, w, h)) => match Picture::new(b, w, h) {
            Some(p) => Ok(p),
            None => Err(owned("picture too large to embed")),
        },
        Err(e) => Err(e),
    }
}

fn add_image(c: &mut DocxCtx, src: &String, alt: &String, width: &Option<String>, e: &DocxInput)
    ensures
        is_of(*final(c)) == d_image(src@, alt@, opt_v(*width), input_v(*e), is_of(*old(c))),
        final(c).parts == old(c).parts,
{
    match e.policy.resolve_with(src.as_str(), e.probes) {
        AssetDecision::Allow(_) => match e.files.lookup(src.as_str()) {
            Ok(bytes) => match picture(&bytes) {
                Ok(pic) => {
                    if width.is_some() {
                        let mut m = owned("image width ignored in docx output: ");
                        m.append(src.as_str());
                        add_note(c, m);
                    }
                    push_item(c, DItem::Run(bare_run(Piece::Image(pic))));
                },
                Err(why) => {
                    let mut m = owned("cannot read image ");
                    m.append(src.as_str());
                    m.append(": ");
                    m.append(why.as_str());
                    add_note(c, m);
                    push_item(c, DItem::Run(text_run(alt.clone(), Fmt { bold: false, italic: false, strike: false, code: false })));
                },
            },
            Err(why) => {
                let mut m = owned("cannot read image ");
                m.append(src.as_str());
                m.append(": ");
                m.append(why.as_str());
                add_note(c, m);
                push_item(c, DItem::Run(text_run(alt.clone(), Fmt { bold: false, italic: false, strike: false, code: false })));
            },
        },
        AssetDecision::Deny(reason) => {
            add_note(c, reason);
            push_item(c, DItem::Run(text_run(alt.clone(), Fmt { bold: false, italic: true, strike: false, code: false })));
        },
    }
}

/// `seps`-joined texts.
fn join_texts(v: &Vec<String>, sep: &str) -> (r: String)
    ensures
        r@ == joined(strings_v(v@), sep@),
{
    let mut r = String::new();
    let mut i: usize = 0;
    while i < v.len()
        invariant
            i <= v@.len(),
            r@ == joined(strings_v(v@.take(i as int)), sep@),
        decreases v.len() - i,
    {
        assert(strings_v(v@.take(i + 1)).drop_last() =~= strings_v(v@.take(i as int)));
        if i > 0 {
            r.append(sep);
        } else {
            assert(strings_v(v@.take(1)) =~= seq![v@[0]@]);
        }
        r.append(v[i].as_str());
        i = i + 1;
    }
    assert(v@.take(i as int) =~= v@);
    r
}

fn push_strings(out: &mut Vec<String>, more: Vec<String>)
    ensures
        strings_v(final(out)@) == strings_v(old(out)@) + strings_v(more@),
{
    let mut i: usize = 0;
    while i < more.len()
        invariant
            i <= more@.len(),
            strings_v(out@) == strings_v(old(out)@) + strings_v(more@.take(i as int)),
        decreases more.len() - i,
    {
        let x = more[i].clone();
        assert(x@ == more@[i as int]@);
        let ghost before = out@;
        out.push(x);
        assert(strings_v(out@) =~= strings_v(before).push(x@));
        assert(strings_v(more@.take(i + 1)) =~= strings_v(more@.take(i as int)).push(x@));
        assert(strings_v(out@) =~= strings_v(old(out)@) + strings_v(more@.take(i + 1)));
        i = i + 1;
    }
    assert(more@.take(i as int) =~= more@);
}

fn block_text_of(b: &Block) -> (r: String)
    ensures
        r@ == block_text(b@),
    decreases b, 1nat,
{
    match b {
        Block::Paragraph(c) => inline_text(c),
        Block::Heading { content, .. } => inline_text(content),
        Block::CodeBlock { code, .. } => code.clone(),
        Block::BlockQuote(bs) => join_texts(&blocks_texts_of(bs), " "),
        Block::Admonition { blocks, .. } => join_texts(&blocks_texts_of(blocks), " "),
        Block::List { items, .. } => join_texts(&items_texts_of(items), " "),
        Block::DefinitionList(d) => {
            let mut all: Vec<String> = Vec::new();
            let mut i: usize = 0;
            assert(strings_v(all@) =~= terms_texts(defs_v(d@.take(0))));
            while i < d.len()
                invariant
                    i <= d@.len(),
                    strings_v(all@) == terms_texts(defs_v(d@.take(i as int))),
                decreases d.len() - i,
            {
                proof { lemma_defs_v_step(d@, i as int); }
                let ghost before = all@;
                all.push(inline_text(&d[i].term));
                assert(strings_v(all@) =~= strings_v(before).push(all@.last()@));
                i = i + 1;
            }
            assert(d@.take(i as int) =~= d@);
            join_texts(&all, " ")
        },
        _ => String::new(),
    }
}

fn items_texts_of(items: &Vec<ListItem>) -> (r: Vec<String>)
    ensures
        strings_v(r@) == items_texts(items_v(items@)),
    decreases items, 0nat,
{
    let mut all: Vec<String> = Vec::new();
    let mut i: usize = 0;
    assert(strings_v(all@) =~= items_texts(items_v(items@.take(0))));
    while i < items.len()
        invariant
            i <= items@.len(),
            strings_v(all@) == items_texts(items_v(items@.take(i as int))),
        decreases items.len() - i,
    {
        proof { lemma_items_v_step(items@, i as int); }
        let t = blocks_texts_of(&items[i].blocks);
        push_strings(&mut all, t);
        i = i + 1;
    }
    assert(items@.take(i as int) =~= items@);
    all
}

fn blocks_texts_of(v: &Vec<Block>) -> (r: Vec<String>)
    ensures
        strings_v(r@) == blocks_texts(blocks_v(v@)),
    decreases v, 0nat,
{
    let mut out: Vec<String> = Vec::new();
    let mut i: usize = 0;
    assert(strings_v(out@) =~= blocks_texts(blocks_v(v@.take(0))));
    while i < v.len()
        invariant
            i <= v@.len(),
            strings_v(out@) == blocks_texts(blocks_v(v@.take(i as int))),
        decreases v.len() - i,
    {
        proof { lemma_blocks_v_step(v@, i as int); }
        let ghost before = out@;
        out.push(block_text_of(&v[i]));
        assert(strings_v(out@) =~= strings_v(before).push(out@.last()@));
        i = i + 1;
    }
    assert(v@.take(i as int) =~= v@);
    out
}

fn add_inline(c: &mut DocxCtx, i: &Inline, f: Fmt, e: &DocxInput)
    ensures
        is_of(*final(c)) == d_inline(i@, f, input_v(*e), is_of(*old(c))),
        final(c).parts == old(c).parts,
    decreases i, 1nat,
{
    match i {
        Inline::Text(t) => push_item(c, DItem::Run(text_run(t.clone(), f))),
        Inline::SoftBreak => push_item(c, DItem::Run(text_run(owned(" "), f))),
        Inline::LineBreak => push_item(c, DItem::Run(bare_run(Piece::Break))),
        Inline::Code(t) => push_item(c, DItem::Run(text_run(t.clone(), Fmt { code: true, ..f }))),
        Inline::Emph(x) => add_inlines(c, x, Fmt { italic: true, ..f }, e),
        Inline::Strong(x) => add_inlines(c, x, Fmt { bold: true, ..f }, e),
        Inline::Strikethrough(x) => add_inlines(c, x, Fmt { strike: true, ..f }, e),
        Inline::Superscript(x) => add_inlines(c, x, f, e),
        Inline::Link { href, content } => {
            let text = inline_text(content);
            let mut r = text_run(text, f);
            r.color = Some(hex_color_of(e.link_color.as_str()));
            push_item(c, DItem::Link(href.clone(), r));
        },
        Inline::Image { src, alt, width } => add_image(c, src, alt, width, e),
        Inline::Footnote(blocks) => {
            let id: u64 = if c.seq < u64::MAX { c.seq + 1 } else { u64::MAX };
            c.seq = id;
            let texts = blocks_texts_of(blocks);
            push_item(c, DItem::Run(bare_run(Piece::Note(id, texts))));
        },
    }
}

fn add_inlines(c: &mut DocxCtx, v: &Vec<Inline>, f: Fmt, e: &DocxInput)
    ensures
        is_of(*final(c)) == d_inlines(inlines_v(v@), f, input_v(*e), is_of(*old(c))),
        final(c).parts == old(c).parts,
    decreases v, 0nat,
{
    let mut i: usize = 0;
    while i < v.len()
        invariant
            i <= v@.len(),
            c.parts == old(c).parts,
            is_of(*c) == d_inlines(inlines_v(v@.take(i as int)), f, input_v(*e), is_of(*old(c))),
        decreases v.len() - i,
    {
        proof { lemma_inlines_v_step(v@, i as int); }
        add_inline(c, &v[i], f, e);
        i = i + 1;
    }
    assert(v@.take(i as int) =~= v@);
}

/// The hex digits of a colour, without leading `#`s.
pub fn hex_color_of(s: &str) -> (r: String)
    ensures
        r@ == hex_color(s@),
{
    let v = chars_of(s);
    let mut i: usize = 0;
    assert(v@.skip(0) =~= v@);
    while i < v.len() && v[i] == '#'
        invariant
            i <= v@.len(),
            hex_color(v@) == hex_color(v@.skip(i as int)),
        decreases v.len() - i,
    {
        assert(v@.skip(i as int).drop_first() =~= v@.skip(i + 1));
        i = i + 1;
    }
    let r = string_of_range(&v, i, v.len());
    assert(r@ =~= v@.skip(i as int));
    r
}

// ---------------------------------------------------------------- blocks (exec)

fn new_para(style: Option<String>, indent: i64, items: Vec<DItem>) -> (p: DPara)
    ensures
        para_v(p) == para(opt_v(style), indent, items_of(items@)),
{
    DPara { style, center: false, indent: if indent > 0 { Some(indent) } else { None }, numbering: None, items }
}

fn take_items(c: &mut DocxCtx) -> (items: Vec<DItem>)
    ensures
        items_of(items@) == is_of(*old(c)).items,
        final(c).items@.len() == 0,
        final(c).parts == old(c).parts,
        final(c).seq == old(c).seq,
        final(c).diags == old(c).diags,
{
    let mut items: Vec<DItem> = Vec::new();
    std::mem::swap(&mut items, &mut c.items);
    items
}

fn clear_items(c: &mut DocxCtx)
    ensures
        final(c).items@.len() == 0,
        final(c).parts == old(c).parts,
        bs_of(*final(c)) == bs_of(*old(c)),
{
    let _ = take_items(c);
}

fn para_of(c: &mut DocxCtx, style: Option<String>, indent: i64, inlines: &Vec<Inline>, f: Fmt, e: &DocxInput)
    ensures
        bs_of(*final(c)) == with_para(bs_of(*old(c)), opt_v(style), indent, inlines_v(inlines@), f, input_v(*e)),
{
    clear_items(c);
    assert(items_of(c.items@) =~= Seq::<DItemV>::empty());
    assert(is_of(*c) == start_items(bs_of(*old(c))));
    add_inlines(c, inlines, f, e);
    let items = take_items(c);
    push_part(c, DPart::Para(new_para(style, indent, items)));
}

fn deeper_x(indent: i64, k: u128) -> (r: i64)
    requires
        k <= u64::MAX as u128 + 1,
    ensures
        r == deeper(indent, k as int),
{
    let d: i128 = indent as i128 + 720 * (k as i128);
    if d > i64::MAX as i128 { i64::MAX } else { d as i64 }
}

/// The pieces of a code block's run: its lines, separated by breaks.
fn code_pieces_of(code: &str) -> (r: Vec<Piece>)
    ensures
        r@.map_values(|p: Piece| piece_v(p)) == code_pieces(code@),
{
    let all = chars_of(code);
    let mut n = all.len();
    assert(all@.take(n as int) =~= all@);
    while n > 0 && all[n - 1] == '\n'
        invariant
            n <= all@.len(),
            trim_newlines(all@) == trim_newlines(all@.take(n as int)),
        decreases n,
    {
        assert(all@.take(n as int).drop_last() =~= all@.take(n - 1));
        n = n - 1;
    }
    let mut v: Vec<char> = Vec::new();
    crate::text::push_range(&mut v, &all, 0, n);
    assert(v@ =~= all@.take(n as int));
    proof {
        if n > 0 {
            assert(all@.take(n as int).last() == all@[n - 1]);
        }
    }
    assert(trim_newlines(v@) == v@);
    let mut out: Vec<Piece> = Vec::new();
    let mut i: usize = 0;
    let mut first = true;
    assert(out@.map_values(|p: Piece| piece_v(p)) =~= Seq::<PieceV>::empty());
    while i < v.len()
        invariant
            i <= v@.len(),
            first == (i == 0),
            code_pieces(code@) == out@.map_values(|p: Piece| piece_v(p)) + code_pieces_from(v@, i as int, first),
        decreases v.len() - i,
    {
        proof { lemma_find_char(v@, '\n', i as int); }
        let e = find_char_in(&v, '\n', i);
        let end = if e < v.len() { e + 1 } else { v.len() };
        let mut le = end;
        if le > i && v[le - 1] == '\n' {
            le = le - 1;
            if le > i && v[le - 1] == '\r' {
                le = le - 1;
            }
        }
        let line = string_of_range(&v, i, le);
        assert(line@ =~= line_text(v@.subrange(i as int, end as int))) by {
            let l = v@.subrange(i as int, end as int);
            if l.len() > 0 && l.last() == '\n' {
                assert(l.last() == v@[end - 1]);
                if l.drop_last().len() > 0 {
                    assert(l.drop_last().last() == v@[end - 2]);
                }
            } else if end > i {
                assert(l.last() == v@[end - 1]);
            }
        }
        let ghost before = out@.map_values(|p: Piece| piece_v(p));
        if !first {
            out.push(Piece::Break);
        }
        out.push(Piece::Text(line));
        assert(out@.map_values(|p: Piece| piece_v(p)) =~= before + (if first { seq![] } else { seq![PieceV::Break] }) + seq![PieceV::Text(line_text(v@.subrange(i as int, end as int)))]);
        i = end;
        first = false;
    }
    assert(code_pieces_from(v@, i as int, first) =~= Seq::<PieceV>::empty());
    out
}

fn accent_text(k: AdmonitionKind) -> (r: String)
    ensures
        r@ == accent_of(k),
{
    match k {
        AdmonitionKind::Note => owned("0969da"),
        AdmonitionKind::Tip => owned("1a7f37"),
        AdmonitionKind::Important => owned("8250df"),
        AdmonitionKind::Warning => owned("9a6700"),
        AdmonitionKind::Caution => owned("cf222e"),
    }
}

fn heading_style(level: u8) -> (r: String)
    ensures
        r@ == "Heading"@ + decimal(heading_level(level)),
{
    let lv: u64 = if level < 1 { 1 } else if level > 6 { 6 } else { level as u64 };
    let mut s = owned("Heading");
    let d = decimal_string(lv);
    s.append(d.as_str());
    s
}

fn emit_block(c: &mut DocxCtx, b: &Block, indent: i64, e: &DocxInput)
    ensures
        bs_of(*final(c)) == d_block(b@, indent, input_v(*e), bs_of(*old(c))),
    decreases b, 2nat,
{
    match b {
        Block::Heading { level, content } => para_of(c, Some(heading_style(*level)), indent, content, Fmt { bold: false, italic: false, strike: false, code: false }, e),
        Block::Paragraph(x) => para_of(c, None, indent, x, Fmt { bold: false, italic: false, strike: false, code: false }, e),
        Block::CodeBlock { lang, code } => {
            let mermaid = match lang {
                Some(l) => same(l.as_str(), "mermaid"),
                None => false,
            };
            if mermaid {
                add_note(c, owned("mermaid diagram rendered as source (diagram support is planned)"));
            }
            let pieces = code_pieces_of(code.as_str());
            let run = DRun { pieces, bold: false, italic: false, strike: false, style: None, color: None, size: None };
            let mut items: Vec<DItem> = Vec::new();
            items.push(DItem::Run(run));
            assert(items_of(items@) =~= seq![DItemV::Run(bare(code_pieces(code@)))]);
            push_part(c, DPart::Para(new_para(Some(owned("Code")), indent, items)));
        },
        Block::BlockQuote(bs) => emit_quoted_all(c, bs, deeper_x(indent, 1), e),
        Block::List { ordered, items } => emit_list(c, *ordered, items, indent, 0, e),
        Block::Table { head, rows, .. } => emit_table(c, head, rows, e),
        Block::ThematicBreak => {
            let mut r = text_run(owned("⸻"), Fmt { bold: false, italic: false, strike: false, code: false });
            r.color = Some(owned("b4b4b4"));
            let mut items: Vec<DItem> = Vec::new();
            items.push(DItem::Run(r));
            assert(items_of(items@) =~= seq![item_v(DItem::Run(r))]);
            push_part(c, DPart::Para(DPara { style: None, center: true, indent: None, numbering: None, items }));
        },
        Block::DefinitionList(d) => emit_defs(c, d, indent, e),
        Block::Admonition { kind, title, blocks } => {
            let mut r = text_run(title.clone(), Fmt { bold: true, italic: false, strike: false, code: false });
            r.color = Some(accent_text(*kind));
            let mut items: Vec<DItem> = Vec::new();
            items.push(DItem::Run(r));
            assert(items_of(items@) =~= seq![item_v(DItem::Run(r))]);
            let inner = deeper_x(indent, 1);
            push_part(c, DPart::Para(new_para(None, inner, items)));
            emit_blocks(c, blocks, inner, e);
        },
        Block::RawHtml(_) => add_note(c, owned("raw HTML block dropped (disabled for safety)")),
    }
}

fn emit_blocks(c: &mut DocxCtx, v: &Vec<Block>, indent: i64, e: &DocxInput)
    ensures
        bs_of(*final(c)) == d_blocks(blocks_v(v@), indent, input_v(*e), bs_of(*old(c))),
    decreases v, 1nat,
{
    let mut i: usize = 0;
    while i < v.len()
        invariant
            i <= v@.len(),
            bs_of(*c) == d_blocks(blocks_v(v@.take(i as int)), indent, input_v(*e), bs_of(*old(c))),
        decreases v.len() - i,
    {
        proof { lemma_blocks_v_step(v@, i as int); }
        emit_block(c, &v[i], indent, e);
        i = i + 1;
    }
    assert(v@.take(i as int) =~= v@);
}

fn emit_quoted(c: &mut DocxCtx, b: &Block, indent: i64, e: &DocxInput)
    ensures
        bs_of(*final(c)) == d_quoted(b@, indent, input_v(*e), bs_of(*old(c))),
    decreases b, 3nat,
{
    match b {
        Block::Paragraph(x) => para_of(c, Some(owned("Quote")), indent, x, Fmt { bold: false, italic: false, strike: false, code: false }, e),
        _ => emit_block(c, b, indent, e),
    }
}

fn emit_quoted_all(c: &mut DocxCtx, v: &Vec<Block>, indent: i64, e: &DocxInput)
    ensures
        bs_of(*final(c)) == d_quoted_all(blocks_v(v@), indent, input_v(*e), bs_of(*old(c))),
    decreases v, 1nat,
{
    let mut i: usize = 0;
    while i < v.len()
        invariant
            i <= v@.len(),
            bs_of(*c) == d_quoted_all(blocks_v(v@.take(i as int)), indent, input_v(*e), bs_of(*old(c))),
        decreases v.len() - i,
    {
        proof { lemma_blocks_v_step(v@, i as int); }
        emit_quoted(c, &v[i], indent, e);
        i = i + 1;
    }
    assert(v@.take(i as int) =~= v@);
}

fn emit_defs(c: &mut DocxCtx, d: &Vec<DefinitionItem>, indent: i64, e: &DocxInput)
    ensures
        bs_of(*final(c)) == d_defs(defs_v(d@), indent, input_v(*e), bs_of(*old(c))),
    decreases d, 1nat,
{
    let mut i: usize = 0;
    while i < d.len()
        invariant
            i <= d@.len(),
            bs_of(*c) == d_defs(defs_v(d@.take(i as int)), indent, input_v(*e), bs_of(*old(c))),
        decreases d.len() - i,
    {
        proof { lemma_defs_v_step(d@, i as int); }
        para_of(c, None, indent, &d[i].term, Fmt { bold: true, italic: false, strike: false, code: false }, e);
        emit_blocks(c, &d[i].details, deeper_x(indent, 1), e);
        i = i + 1;
    }
    assert(d@.take(i as int) =~= d@);
}

fn numbered_para(c: &mut DocxCtx, ordered: bool, task: Option<bool>, level: u64, x: &Vec<Inline>, e: &DocxInput)
    ensures
        bs_of(*final(c)) == numbered(bs_of(*old(c)), ordered, task, level, inlines_v(x@), input_v(*e)),
{
    clear_items(c);
    match task {
        Some(true) => push_item(c, DItem::Run(text_run(owned("☑ "), Fmt { bold: false, italic: false, strike: false, code: false }))),
        Some(false) => push_item(c, DItem::Run(text_run(owned("☐ "), Fmt { bold: false, italic: false, strike: false, code: false }))),
        None => {},
    }
    assert(items_of(c.items@) =~= task_runs(task));
    add_inlines(c, x, Fmt { bold: false, italic: false, strike: false, code: false }, e);
    let items = take_items(c);
    let lv: u64 = if level < 8 { level } else { 8 };
    let p = DPara { style: None, center: false, indent: None, numbering: Some((if ordered { 2 } else { 1 }, lv)), items };
    push_part(c, DPart::Para(p));
}

fn emit_item_blocks(c: &mut DocxCtx, ordered: bool, task: Option<bool>, v: &Vec<Block>, indent: i64, level: u64, e: &DocxInput)
    ensures
        bs_of(*final(c)) == d_item_blocks(ordered, task, blocks_v(v@), indent, level, input_v(*e), bs_of(*old(c))).0,
    decreases v, 1nat,
{
    let mut i: usize = 0;
    let mut done = false;
    while i < v.len()
        invariant
            i <= v@.len(),
            (bs_of(*c), done) == d_item_blocks(ordered, task, blocks_v(v@.take(i as int)), indent, level, input_v(*e), bs_of(*old(c))),
        decreases v.len() - i,
    {
        proof { lemma_blocks_v_step(v@, i as int); }
        match &v[i] {
            Block::Paragraph(x) if !done => {
                numbered_para(c, ordered, task, level, x, e);
                done = true;
            },
            Block::List { ordered: o2, items } => {
                let next: u64 = if level < u64::MAX { level + 1 } else { level };
                emit_list(c, *o2, items, indent, next, e);
            },
            other => {
                emit_block(c, other, deeper_x(indent, level as u128 + 1), e);
            },
        }
        i = i + 1;
    }
    assert(v@.take(i as int) =~= v@);
}

fn emit_list(c: &mut DocxCtx, ordered: bool, items: &Vec<ListItem>, indent: i64, level: u64, e: &DocxInput)
    ensures
        bs_of(*final(c)) == d_list(ordered, items_v(items@), indent, level, input_v(*e), bs_of(*old(c))),
    decreases items, 2nat,
{
    let mut i: usize = 0;
    while i < items.len()
        invariant
            i <= items@.len(),
            bs_of(*c) == d_list(ordered, items_v(items@.take(i as int)), indent, level, input_v(*e), bs_of(*old(c))),
        decreases items.len() - i,
    {
        proof { lemma_items_v_step(items@, i as int); }
        emit_item_blocks(c, ordered, items[i].task, &items[i].blocks, indent, level, e);
        i = i + 1;
    }
    assert(items@.take(i as int) =~= items@);
}

fn emit_cells(c: &mut DocxCtx, cells: &Vec<Vec<Inline>>, f: Fmt, e: &DocxInput, paras: &mut Vec<DPara>)
    ensures
        (CS { paras: paras_v(final(paras)@), seq: final(c).seq, diags: messages(final(c).diags@) })
            == d_cells(cells_v(cells@), f, input_v(*e), CS { paras: paras_v(old(paras)@), seq: old(c).seq, diags: messages(old(c).diags@) }),
        final(c).parts == old(c).parts,
{
    let ghost start = CS { paras: paras_v(paras@), seq: c.seq, diags: messages(c.diags@) };
    let mut i: usize = 0;
    while i < cells.len()
        invariant
            i <= cells@.len(),
            c.parts == old(c).parts,
            (CS { paras: paras_v(paras@), seq: c.seq, diags: messages(c.diags@) }) == d_cells(cells_v(cells@.take(i as int)), f, input_v(*e), start),
        decreases cells.len() - i,
    {
        proof { lemma_cells_v_step(cells@, i as int); }
        clear_items(c);
        assert(items_of(c.items@) =~= Seq::<DItemV>::empty());
        add_inlines(c, &cells[i], f, e);
        let items = take_items(c);
        let ghost before = paras@;
        paras.push(new_para(None, 0, items));
        assert(paras_v(paras@) =~= paras_v(before).push(para_v(paras@.last())));
        i = i + 1;
    }
    assert(cells@.take(i as int) =~= cells@);
}

fn emit_table(c: &mut DocxCtx, head: &Vec<Vec<Inline>>, rows: &Vec<Vec<Vec<Inline>>>, e: &DocxInput)
    ensures
        bs_of(*final(c)) == d_table(cells_v(head@), rows_v(rows@), input_v(*e), bs_of(*old(c))),
{
    let ghost e0 = bs_of(*c);
    let mut table: Vec<Vec<DPara>> = Vec::new();
    proof { crate::ir::lemma_cells_v(head@); }
    if head.len() > 0 {
        let mut ps: Vec<DPara> = Vec::new();
        assert(paras_v(ps@) =~= Seq::<DParaV>::empty());
        emit_cells(c, head, Fmt { bold: true, italic: false, strike: false, code: false }, e, &mut ps);
        let ghost psv = paras_v(ps@);
        table.push(ps);
        assert(table@.map_values(|r: Vec<DPara>| paras_v(r@)) =~= seq![psv]);
    } else {
        assert(table@.map_values(|r: Vec<DPara>| paras_v(r@)) =~= Seq::<Seq<DParaV>>::empty());
    }
    let ghost r1 = RS { rows: table@.map_values(|r: Vec<DPara>| paras_v(r@)), seq: c.seq, diags: messages(c.diags@) };
    assert(r1 == (if cells_v(head@).len() > 0 {
        d_row(cells_v(head@), Fmt { bold: true, ..plain_fmt() }, input_v(*e), RS { rows: seq![], seq: e0.seq, diags: e0.diags })
    } else {
        RS { rows: seq![], seq: e0.seq, diags: e0.diags }
    }));
    let mut i: usize = 0;
    while i < rows.len()
        invariant
            i <= rows@.len(),
            c.parts == old(c).parts,
            (RS { rows: table@.map_values(|r: Vec<DPara>| paras_v(r@)), seq: c.seq, diags: messages(c.diags@) }) == d_rows(rows_v(rows@.take(i as int)), input_v(*e), r1),
        decreases rows.len() - i,
    {
        proof { lemma_rows_v_step(rows@, i as int); }
        let mut ps: Vec<DPara> = Vec::new();
        assert(paras_v(ps@) =~= Seq::<DParaV>::empty());
        emit_cells(c, &rows[i], Fmt { bold: false, italic: false, strike: false, code: false }, e, &mut ps);
        let ghost before = table@;
        table.push(ps);
        assert(table@.map_values(|r: Vec<DPara>| paras_v(r@)) =~= before.map_values(|r: Vec<DPara>| paras_v(r@)).push(paras_v(ps@)));
        i = i + 1;
    }
    assert(rows@.take(i as int) =~= rows@);
    push_part(c, DPart::Table(table));
    let empty: Vec<DItem> = Vec::new();
    assert(items_of(empty@) =~= Seq::<DItemV>::empty());
    push_part(c, DPart::Para(new_para(None, 0, empty)));
}

// ---------------------------------------------------------------- the document (exec)

fn emit_title(c: &mut DocxCtx, doc: &Document, opts: &RenderOptions)
    ensures
        bs_of(*final(c)) == d_title(doc@, opts@, bs_of(*old(c))),
{
    let title = match doc.resolve_title(title_override(opts)) {
        Some(t) => t,
        None => return,
    };
    if blank(title.as_str()) {
        return;
    }
    let plain = Fmt { bold: false, italic: false, strike: false, code: false };
    let mut items: Vec<DItem> = Vec::new();
    items.push(DItem::Run(text_run(title, plain)));
    assert(items_of(items@) =~= seq![item_v(items@[0])]);
    push_part(c, DPart::Para(new_para(Some(owned("Title")), 0, items)));
    match &doc.meta.subtitle {
        Some(sub) => {
            let mut items: Vec<DItem> = Vec::new();
            items.push(DItem::Run(text_run(sub.clone(), plain)));
            assert(items_of(items@) =~= seq![item_v(items@[0])]);
            push_part(c, DPart::Para(new_para(Some(owned("Subtitle")), 0, items)));
        },
        None => {},
    }
    let byline: Option<String> = match (&doc.meta.author, &doc.meta.date) {
        (Some(a), Some(d)) => {
            let mut b = a.clone();
            b.append(" — ");
            b.append(d.as_str());
            Some(b)
        },
        (Some(a), None) => Some(a.clone()),
        (None, Some(d)) => Some(d.clone()),
        (None, None) => None,
    };
    match byline {
        Some(b) => {
            let mut items: Vec<DItem> = Vec::new();
            items.push(DItem::Run(text_run(b, plain)));
            assert(items_of(items@) =~= seq![item_v(items@[0])]);
            push_part(c, DPart::Para(new_para(Some(owned("Byline")), 0, items)));
        },
        None => {},
    }
    let empty: Vec<DItem> = Vec::new();
    assert(items_of(empty@) =~= Seq::<DItemV>::empty());
    push_part(c, DPart::Para(new_para(None, 0, empty)));
}

/// The body of the DOCX model and its diagnostics.
fn emit_body(doc: &Document, opts: &RenderOptions, e: &DocxInput) -> (c: DocxCtx)
    ensures
        bs_of(c) == d_body(doc@, opts@, input_v(*e)),
{
    let mut c = DocxCtx { parts: Vec::new(), items: Vec::new(), seq: 0, diags: Vec::new() };
    assert(parts_v(c.parts@) =~= Seq::<DPartV>::empty());
    assert(messages(c.diags@) =~= Seq::<Seq<char>>::empty());
    emit_title(&mut c, doc, opts);
    if opts.toc {
        push_part(&mut c, DPart::Contents { first: 1, last: 6, title: owned(CONTENTS_TITLE), auto: true });
    }
    emit_blocks(&mut c, &doc.blocks, 0, e);
    c
}

/// Half-points of a body size given as the text an `f32` displays as.
pub fn half_points_of(s: &str) -> (r: u64)
    ensures
        r == half_points(s@),
{
    let v = chars_of(s);
    if v.len() > 0 && v[0] == '-' {
        return 0;
    }
    if same(s, "NaN") {
        return 0;
    }
    if same(s, "inf") {
        return u64::MAX;
    }
    let ip = digit_run_in(&v, 0);
    proof { lemma_digit_run(v@, 0); }
    let iv = saturated_value(&v, 0, ip);
    assert(v@.subrange(0, ip as int) =~= v@.take(ip as int));
    let mut frac: Vec<char> = Vec::new();
    if ip < v.len() && v[ip] == '.' {
        let fp = digit_run_in(&v, ip + 1);
        push_range(&mut frac, &v, ip + 1, fp);
    }
    let mut seventy_five: Vec<char> = Vec::new();
    seventy_five.push('7');
    seventy_five.push('5');
    let mut twenty_five: Vec<char> = Vec::new();
    twenty_five.push('2');
    twenty_five.push('5');
    assert(seventy_five@ =~= seq!['7', '5']);
    assert(twenty_five@ =~= seq!['2', '5']);
    assert(frac@.skip(0) =~= frac@);
    let adj: u128 = if frac_order_in(&frac, 0, &seventy_five) >= 0 {
        2
    } else if frac_order_in(&frac, 0, &twenty_five) >= 0 {
        1
    } else {
        0
    };
    if iv == EXP_CAP {
        return u64::MAX;
    }
    let total: u128 = 2 * iv + adj;
    if total > u64::MAX as u128 { u64::MAX } else { total as u64 }
}

fn add_sat(a: u64, b: u64) -> (r: u64)
    ensures
        r == sat_add(a, b),
{
    if a > u64::MAX - b { u64::MAX } else { a + b }
}

fn sub_sat(a: u64, b: u64) -> (r: u64)
    ensures
        r == sat_sub(a, b),
{
    if a >= b { a - b } else { 0 }
}

fn style_new(id: &str, name: &str, paragraph: bool) -> (s: DStyle)
    ensures
        style_v(s) == plain_style(id@, name@, paragraph),
{
    DStyle { id: owned(id), name: owned(name), paragraph, size: None, bold: false, italic: false, color: None, center: false, font: None }
}

/// The styles the document defines for theme `t`.
pub fn styles_for(t: &ThemeSpec) -> (r: Vec<DStyle>)
    ensures
        r@.map_values(|s: DStyle| style_v(s)) == styles_of(t@),
{
    let body = half_points_of(t.body_size_pt.as_str());
    let mut r: Vec<DStyle> = Vec::new();
    let mut s = style_new("Title", "Title", true);
    s.size = Some(add_sat(body, 22));
    s.bold = true;
    s.color = Some(hex_color_of(t.accent_color.as_str()));
    s.center = true;
    r.push(s);
    let mut s = style_new("Subtitle", "Subtitle", true);
    s.size = Some(add_sat(body, 4));
    s.center = true;
    r.push(s);
    let mut s = style_new("Byline", "Byline", true);
    s.size = Some(sub_sat(body, 2));
    s.color = Some(owned("5a5a5a"));
    s.center = true;
    r.push(s);
    let mut s = style_new("Code", "Code", true);
    s.size = Some(sub_sat(body, 3));
    s.font = Some(t.mono_font.clone());
    r.push(s);
    let mut s = style_new(CODE_CHAR_STYLE, "Code Char", false);
    s.font = Some(t.mono_font.clone());
    r.push(s);
    let mut s = style_new("Quote", "Quote", true);
    s.italic = true;
    s.color = Some(owned("444444"));
    r.push(s);
    let ghost fixed = r@.map_values(|s: DStyle| style_v(s));
    assert(fixed =~= styles_of(t@).take(6));
    let heading = hex_color_of(t.heading_color.as_str());
    let mut k: u64 = 1;
    while k <= 6
        invariant
            1 <= k <= 7,
            heading@ == hex_color(t@.heading_color),
            body == half_points(t@.body_size_pt),
            r@.map_values(|s: DStyle| style_v(s)) == styles_of(t@).take(5 + k),
        decreases 7 - k,
    {
        let extra: u64 = if k == 1 { 14 } else if k == 2 { 8 } else if k == 3 { 4 } else if k == 4 { 2 } else { 0 };
        let mut id = owned("Heading");
        let mut name = owned("Heading ");
        let d = decimal_string(k);
        id.append(d.as_str());
        name.append(d.as_str());
        let s = DStyle {
            id,
            name,
            paragraph: true,
            size: Some(add_sat(body, extra)),
            bold: true,
            italic: false,
            color: Some(heading.clone()),
            center: false,
            font: None,
        };
        assert(style_v(s) == heading_style_of(t@, k as nat));
        let ghost before = r@.map_values(|s: DStyle| style_v(s));
        r.push(s);
        assert(r@.map_values(|s: DStyle| style_v(s)) =~= before.push(style_v(s)));
        assert(styles_of(t@).take(5 + k + 1) =~= styles_of(t@).take(5 + k).push(heading_style_of(t@, k as nat)));
        k = k + 1;
    }
    assert(styles_of(t@).take(12) =~= styles_of(t@));
    r
}

fn furniture(t: &Option<String>, meta: &Meta) -> (r: Option<String>)
    ensures
        opt_v(r) == match opt_v(*t) { Some(x) => Some(substituted(x, meta@)), None => None },
{
    match t {
        Some(x) => Some(substitute_meta(x.as_str(), meta)),
        None => None,
    }
}

/// Lower `doc` to the DOCX model, appending the diagnostics to `diags`.
pub fn lower(doc: &Document, opts: &RenderOptions, probes: &AssetProbes, files: &AssetFiles, diags: &mut Vec<Diagnostic>) -> (m: DocxModel)
    ensures
        model_v(m) == docx_model(doc@, opts@, DocxEnv { env: env_of(&opts.security, probes), files: files.entries@, link_color: spec_of(opts@.theme).link_color }),
        messages(final(diags)@) == messages(old(diags)@)
            + d_body(doc@, opts@, DocxEnv { env: env_of(&opts.security, probes), files: files.entries@, link_color: spec_of(opts@.theme).link_color }).diags,
{
    let spec = opts.theme.spec();
    let e = DocxInput { policy: &opts.security, probes, files, link_color: spec.link_color.clone() };
    let c = emit_body(doc, opts, &e);
    let styles = styles_for(&spec);
    let header = furniture(&opts.layout.header, &doc.meta);
    let footer = furniture(&opts.layout.footer, &doc.meta);
    crate::render::html::append_diags(diags, c.diags);
    DocxModel { styles, header, footer, parts: c.parts }
}

} // verus!
