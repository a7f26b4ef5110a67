//! The Typst back-end: lowers the document model to Typst markup, and either
//! returns that markup ([`TypstSourceRenderer`]) or compiles it to a PDF
//! ([`TypstPdfRenderer`]). Both share [`lower`], so the two outputs never drift.
//!
//! Every piece of document text is emitted inside a Typst string literal
//! (`#"…"`) and all structure is expressed through Typst functions, so the
//! only characters that need escaping are those special inside a string.

use vstd::prelude::*;
use crate::ir::{block_v, blocks_v, cells_v, defs_v, inlines_v, items_v, lemma_blocks_v_step, lemma_cells_v, lemma_cells_v_step, lemma_defs_v_step, lemma_inlines_v_step, lemma_items_v_step, lemma_rows_v, lemma_rows_v_step, opt_v, rows_v, title_of, AdmonitionKind, Align, Block, BlockV, DefV, DefinitionItem, Document, DocumentV, Inline, InlineV, ItemV, ListItem, Meta, MetaV};
use vstd::utf8::encode_utf8;
use crate::render::docx::lower::AssetFiles;
use crate::render::{Handover, Renderer, messages, note, Diagnostic, OutputFormat, Rendered, paper_typst_name, substituted, substitute_meta, OptionsV, RenderOptions};
use crate::security::{decide, probe_for, AssetDecision, AssetProbe, AssetProbes, DecisionV, PolicyV, SecurityPolicy};
use crate::text::{chars_of, decimal, decimal_string, is_blank, all_ws, owned, same};
use crate::theme::{spec_of, ThemeSpec, ThemeSpecV};

verus! {

broadcast use vstd::std_specs::vec::group_vec_axioms;

// ---------------------------------------------------------------- spec

/// What the back-end needs to decide about images.
pub struct Env {
    pub policy: PolicyV,
    pub probes: Seq<(String, AssetProbe)>,
}

pub open spec fn image_decision(env: Env, src: Seq<char>) -> DecisionV {
    decide(env.policy, src, probe_for(env.probes, src))
}

/// Escaping of one character inside a Typst string literal.
pub open spec fn esc_char(c: char) -> Seq<char> {
    if c == '\\' {
        seq!['\\', '\\']
    } else if c == '"' {
        seq!['\\', '"']
    } else if c == '\n' {
        seq!['\\', 'n']
    } else if c == '\r' {
        seq!['\\', 'r']
    } else if c == '\t' {
        seq!['\\', 't']
    } else {
        seq![c]
    }
}

/// `s` escaped for inclusion inside a Typst `"…"` literal.
pub open spec fn escaped(s: Seq<char>) -> Seq<char>
    decreases s.len(),
{
    if s.len() == 0 { seq![] } else { escaped(s.drop_last()) + esc_char(s.last()) }
}

/// What Typst reads from the text after the opening `"` of a string
/// literal: the characters up to the closing `"`, a backslash taking the
/// next character as an escape (`\n`, `\r`, `\t` for the control characters,
/// any other character for itself), and the text after the closing quote;
/// `None` when the text ends first.
pub open spec fn read_str(t: Seq<char>) -> Option<(Seq<char>, Seq<char>)>
    decreases t.len(),
{
    if t.len() == 0 {
        None
    } else if t[0] == '"' {
        Some((seq![], t.skip(1)))
    } else if t[0] == '\\' && t.len() >= 2 {
        let c = t[1];
        let d = if c == 'n' { '\n' } else if c == 'r' { '\r' } else if c == 't' { '\t' } else { c };
        match read_str(t.skip(2)) {
            Some((x, rest)) => Some((seq![d] + x, rest)),
            None => None,
        }
    } else {
        match read_str(t.skip(1)) {
            Some((x, rest)) => Some((seq![t[0]] + x, rest)),
            None => None,
        }
    }
}

proof fn lemma_escaped_cons(c: char, s: Seq<char>)
    ensures
        escaped(seq![c] + s) == esc_char(c) + escaped(s),
    decreases s.len(),
{
    let u = seq![c] + s;
    if s.len() == 0 {
        assert(u =~= seq![c]);
        assert(u.drop_last() =~= Seq::<char>::empty());
        assert(escaped(u) == escaped(u.drop_last()) + esc_char(u.last()));
        assert(esc_char(c) + escaped(s) =~= esc_char(c));
        assert(escaped(u) =~= esc_char(c));
    } else {
        assert(u.drop_last() =~= seq![c] + s.drop_last());
        assert(u.last() == s.last());
        lemma_escaped_cons(c, s.drop_last());
        assert(escaped(u) == escaped(u.drop_last()) + esc_char(u.last()));
        assert(esc_char(c) + escaped(s.drop_last()) + esc_char(s.last()) =~= esc_char(c) + escaped(s));
    }
}

/// Whatever the text, a string literal written by the back-end — the text
/// escaped, then the closing quote — reads back as exactly that text, and
/// Typst resumes right after the closing quote: no text can end the string
/// early or inject markup.
pub proof fn law_string_round_trip(s: Seq<char>, rest: Seq<char>)
    ensures
        read_str(escaped(s) + seq!['"'] + rest) == Some((s, rest)),
    decreases s.len(),
{
    if s.len() == 0 {
        assert(escaped(s) + seq!['"'] + rest =~= seq!['"'] + rest);
        assert((seq!['"'] + rest).skip(1) =~= rest);
    } else {
        let c = s[0];
        let tail = s.drop_first();
        assert(seq![c] + tail =~= s);
        lemma_escaped_cons(c, tail);
        law_string_round_trip(tail, rest);
        let t = escaped(s) + seq!['"'] + rest;
        let after = escaped(tail) + seq!['"'] + rest;
        assert(t =~= esc_char(c) + after);
        if c == '\\' || c == '"' || c == '\n' || c == '\r' || c == '\t' {
            assert(t.skip(2) =~= after);
        } else {
            assert(t.skip(1) =~= after);
        }
    }
}

/// `s` as an inert Typst string in markup: `#"…"`.
pub open spec fn lit(s: Seq<char>) -> Seq<char> {
    "#\""@ + escaped(s) + "\""@
}

pub open spec fn wrapped(open: Seq<char>, inner: Seq<char>) -> Seq<char> {
    open + inner + "]"@
}

pub open spec fn ty_inline(i: InlineV, env: Env) -> Seq<char>
    decreases i,
{
    match i {
        InlineV::Text(t) => lit(t),
        InlineV::SoftBreak => "#\" \""@,
        InlineV::LineBreak => "#linebreak()"@,
        InlineV::Code(c) => "#raw(\""@ + escaped(c) + "\")"@,
        InlineV::Emph(c) => wrapped("#emph["@, ty_inlines(c, env)),
        InlineV::Strong(c) => wrapped("#strong["@, ty_inlines(c, env)),
        InlineV::Strikethrough(c) => wrapped("#strike["@, ty_inlines(c, env)),
        InlineV::Superscript(c) => wrapped("#super["@, ty_inlines(c, env)),
        InlineV::Link { href, content } => wrapped("#link(\""@ + escaped(href) + "\")["@, ty_inlines(content, env)),
        InlineV::Image { src, alt, width } => match image_decision(env, src) {
            DecisionV::Allow(path) => "#image(\""@ + escaped(path) + "\""@ + match width {
                Some(w) => ", width: "@ + w,
                None => seq![],
            } + ")"@,
            DecisionV::Deny(_) => wrapped("#emph["@, lit(alt)),
        },
        InlineV::Footnote(bs) => wrapped("#footnote["@, ty_blocks(bs, env)),
    }
}

pub open spec fn ty_inlines(s: Seq<InlineV>, env: Env) -> Seq<char>
    decreases s,
{
    if s.len() == 0 { seq![] } else { ty_inlines(s.drop_last(), env) + ty_inline(s.last(), env) }
}

pub open spec fn task_mark(task: Option<bool>) -> Seq<char> {
    match task {
        Some(true) => lit("☑ "@),
        Some(false) => lit("☐ "@),
        None => seq![],
    }
}

/// The blocks of a list item: a paragraph contributes its inline run only,
/// separated from what precedes it by `#parbreak()`.
pub open spec fn ty_item_body(bs: Seq<BlockV>, env: Env) -> Seq<char>
    decreases bs,
{
    if bs.len() == 0 {
        seq![]
    } else {
        ty_item_body(bs.drop_last(), env) + match bs.last() {
            BlockV::Paragraph(c) => (if bs.len() > 1 { "#parbreak()"@ } else { seq![] }) + ty_inlines(c, env),
            _ => ty_block(bs.last(), env),
        }
    }
}

pub open spec fn ty_items(items: Seq<ItemV>, env: Env) -> Seq<char>
    decreases items,
{
    if items.len() == 0 {
        seq![]
    } else {
        ty_items(items.drop_last(), env) + "  ["@ + task_mark(items.last().task) + ty_item_body(items.last().blocks, env) + "],\n"@
    }
}

pub open spec fn ty_cells(cells: Seq<Seq<InlineV>>, env: Env) -> Seq<char>
    decreases cells,
{
    if cells.len() == 0 { seq![] } else { ty_cells(cells.drop_last(), env) + "["@ + ty_inlines(cells.last(), env) + "], "@ }
}

pub open spec fn ty_rows(rows: Seq<Seq<Seq<InlineV>>>, env: Env) -> Seq<char>
    decreases rows,
{
    if rows.len() == 0 { seq![] } else { ty_rows(rows.drop_last(), env) + "  "@ + ty_cells(rows.last(), env) + "\n"@ }
}

pub open spec fn align_word(a: Align) -> Seq<char> {
    match a {
        Align::Center => "center"@,
        Align::Right => "right"@,
        _ => "left"@,
    }
}

pub open spec fn align_at(align: Seq<Align>, i: int) -> Align {
    if 0 <= i < align.len() { align[i] } else { Align::Unspecified }
}

pub open spec fn ty_aligns(align: Seq<Align>, n: nat) -> Seq<char>
    decreases n,
{
    if n == 0 { seq![] } else { ty_aligns(align, (n - 1) as nat) + align_word(align_at(align, n - 1)) + ", "@ }
}

pub open spec fn max(a: nat, b: nat) -> nat {
    if a >= b { a } else { b }
}

/// Number of table columns: the widest of the header, the first row and the
/// alignment row, and at least one.
pub open spec fn table_columns(align: Seq<Align>, head: Seq<Seq<InlineV>>, rows: Seq<Seq<Seq<InlineV>>>) -> nat {
    max(max(max(head.len(), if rows.len() > 0 { rows[0].len() } else { 0 }), align.len()), 1)
}

/// The opening of a table: columns, per-column alignment and stroke.
pub open spec fn table_open(align: Seq<Align>, head: Seq<Seq<InlineV>>, rows: Seq<Seq<Seq<InlineV>>>) -> Seq<char> {
    let n = table_columns(align, head, rows);
    "#table(\n  columns: "@ + decimal(n) + ",\n  align: ("@ + ty_aligns(align, n) + "),\n  stroke: 0.5pt + luma(190),\n"@
}

pub open spec fn ty_defs(d: Seq<DefV>, env: Env) -> Seq<char>
    decreases d,
{
    if d.len() == 0 {
        seq![]
    } else {
        ty_defs(d.drop_last(), env) + "  terms.item["@ + ty_inlines(d.last().term, env) + "]["@ + ty_blocks(d.last().details, env) + "],\n"@
    }
}

/// The accent color of an admonition kind.
pub open spec fn kind_color(k: AdmonitionKind) -> Seq<char> {
    match k {
        AdmonitionKind::Note => "#0969da"@,
        AdmonitionKind::Tip => "#1a7f37"@,
        AdmonitionKind::Important => "#8250df"@,
        AdmonitionKind::Warning => "#9a6700"@,
        AdmonitionKind::Caution => "#cf222e"@,
    }
}

pub open spec fn ty_block(b: BlockV, env: Env) -> Seq<char>
    decreases b,
{
    match b {
        BlockV::Heading { level, content } => "#heading(level: "@ + decimal(level as nat) + ")["@ + ty_inlines(content, env) + "]\n\n"@,
        BlockV::Paragraph(c) => ty_inlines(c, env) + "\n\n"@,
        BlockV::CodeBlock { lang, code } => "#raw(block: true"@ + match lang {
            Some(l) => ", lang: \""@ + escaped(l) + "\""@,
            None => seq![],
        } + ", \""@ + escaped(code) + "\")\n\n"@,
        BlockV::BlockQuote(bs) => "#quote(block: true)[\n"@ + ty_blocks(bs, env) + "]\n\n"@,
        BlockV::List { ordered, items } => (if ordered { "#enum(\n"@ } else { "#list(\n"@ }) + ty_items(items, env) + ")\n\n"@,
        BlockV::Table { align, head, rows } => table_open(align, head, rows)
            + (if head.len() > 0 { "  table.header("@ + ty_cells(head, env) + "),\n"@ } else { seq![] })
            + ty_rows(rows, env) + ")\n\n"@,
        BlockV::ThematicBreak => "#line(length: 100%, stroke: 0.5pt + luma(180))\n#v(0.3em)\n\n"@,
        BlockV::DefinitionList(d) => "#terms(\n"@ + ty_defs(d, env) + ")\n\n"@,
        BlockV::Admonition { kind, title, blocks } => "#block(fill: luma(246), inset: 10pt, radius: 3pt, width: 100%, stroke: (left: 3pt + rgb(\""@
            + kind_color(kind) + "\")))[\n#strong["@ + lit(title) + "]\n\n"@ + ty_blocks(blocks, env) + "]\n\n"@,
        BlockV::RawHtml(_) => seq![],
    }
}

pub open spec fn ty_blocks(s: Seq<BlockV>, env: Env) -> Seq<char>
    decreases s,
{
    if s.len() == 0 { seq![] } else { ty_blocks(s.drop_last(), env) + ty_block(s.last(), env) }
}

// diagnostics

pub open spec fn mermaid_note() -> Seq<char> {
    "mermaid diagram rendered as source (diagram support is planned)"@
}

pub open spec fn raw_html_note() -> Seq<char> {
    "raw HTML block dropped (disabled for safety)"@
}

pub open spec fn nt_inline(i: InlineV, env: Env) -> Seq<Seq<char>>
    decreases i,
{
    match i {
        InlineV::Emph(c) => nt_inlines(c, env),
        InlineV::Strong(c) => nt_inlines(c, env),
        InlineV::Strikethrough(c) => nt_inlines(c, env),
        InlineV::Superscript(c) => nt_inlines(c, env),
        InlineV::Link { content, .. } => nt_inlines(content, env),
        InlineV::Image { src, .. } => match image_decision(env, src) {
            DecisionV::Allow(_) => seq![],
            DecisionV::Deny(r) => seq![r],
        },
        InlineV::Footnote(bs) => nt_blocks(bs, env),
        _ => seq![],
    }
}

pub open spec fn nt_inlines(s: Seq<InlineV>, env: Env) -> Seq<Seq<char>>
    decreases s,
{
    if s.len() == 0 { seq![] } else { nt_inlines(s.drop_last(), env) + nt_inline(s.last(), env) }
}

pub open spec fn nt_items(items: Seq<ItemV>, env: Env) -> Seq<Seq<char>>
    decreases items,
{
    if items.len() == 0 { seq![] } else { nt_items(items.drop_last(), env) + nt_blocks(items.last().blocks, env) }
}

pub open spec fn nt_cells(cells: Seq<Seq<InlineV>>, env: Env) -> Seq<Seq<char>>
    decreases cells,
{
    if cells.len() == 0 { seq![] } else { nt_cells(cells.drop_last(), env) + nt_inlines(cells.last(), env) }
}

pub open spec fn nt_rows(rows: Seq<Seq<Seq<InlineV>>>, env: Env) -> Seq<Seq<char>>
    decreases rows,
{
    if rows.len() == 0 { seq![] } else { nt_rows(rows.drop_last(), env) + nt_cells(rows.last(), env) }
}

pub open spec fn nt_defs(d: Seq<DefV>, env: Env) -> Seq<Seq<char>>
    decreases d,
{
    if d.len() == 0 {
        seq![]
    } else {
        nt_defs(d.drop_last(), env) + nt_inlines(d.last().term, env) + nt_blocks(d.last().details, env)
    }
}

/// The diagnostics one block produces: denied images, mermaid diagrams left as
/// source and dropped raw HTML, in document order.
pub open spec fn nt_block(b: BlockV, env: Env) -> Seq<Seq<char>>
    decreases b,
{
    match b {
        BlockV::Heading { content, .. } => nt_inlines(content, env),
        BlockV::Paragraph(c) => nt_inlines(c, env),
        BlockV::CodeBlock { lang, .. } => if lang == Some("mermaid"@) { seq![mermaid_note()] } else { seq![] },
        BlockV::BlockQuote(bs) => nt_blocks(bs, env),
        BlockV::List { items, .. } => nt_items(items, env),
        BlockV::Table { head, rows, .. } => nt_cells(head, env) + nt_rows(rows, env),
        BlockV::ThematicBreak => seq![],
        BlockV::DefinitionList(d) => nt_defs(d, env),
        BlockV::Admonition { blocks, .. } => nt_blocks(blocks, env),
        BlockV::RawHtml(_) => seq![raw_html_note()],
    }
}

pub open spec fn nt_blocks(s: Seq<BlockV>, env: Env) -> Seq<Seq<char>>
    decreases s,
{
    if s.len() == 0 { seq![] } else { nt_blocks(s.drop_last(), env) + nt_block(s.last(), env) }
}

// document

pub open spec fn bool_word(b: bool) -> Seq<char> {
    if b { "true"@ } else { "false"@ }
}

pub open spec fn furniture(text: Seq<char>) -> Seq<char> {
    "align(center, text(size: 9pt, fill: luma(120))["@ + lit(text) + "])"@
}

pub open spec fn page_setup(o: OptionsV, spec: ThemeSpecV, meta: MetaV) -> Seq<char> {
    "#set page(paper: \""@ + paper_typst_name(o.paper) + "\", margin: (x: "@ + spec.margin_x_cm + "cm, y: "@
        + spec.margin_y_cm + "cm)"@
        + (if o.layout.page_numbers { ", numbering: \"1\""@ } else { seq![] })
        + match o.layout.header {
            Some(h) => ", header: "@ + furniture(substituted(h, meta)),
            None => seq![],
        }
        + match o.layout.footer {
            Some(f) => ", footer: "@ + furniture(substituted(f, meta)),
            None => seq![],
        }
        + ")\n"@
}

pub open spec fn text_setup(spec: ThemeSpecV) -> Seq<char> {
    "#set text(font: \""@ + spec.body_font + "\", size: "@ + spec.body_size_pt + "pt, lang: \"en\")\n"@
        + "#set par(justify: "@ + bool_word(spec.justify) + ", leading: 0.65em, first-line-indent: "@ + spec.first_line_indent_em + "em)\n"@
}

pub open spec fn color_setup(spec: ThemeSpecV) -> Seq<char> {
    "#show heading: set text(fill: rgb(\""@ + spec.heading_color + "\"))\n"@
        + "#show heading.where(level: 1): set text(size: 1.5em)\n"@
        + "#show link: set text(fill: rgb(\""@ + spec.link_color + "\"))\n"@
        + "#show raw: set text(font: \""@ + spec.mono_font + "\", size: 9.5pt)\n"@
}

pub open spec fn code_setup(spec: ThemeSpecV) -> Seq<char> {
    match spec.code_stroke {
        Some(stroke) => "#show raw.where(block: true): block.with(fill: rgb(\""@ + spec.code_fill
            + "\"), inset: 10pt, radius: 4pt, width: 100%, stroke: 0.5pt + rgb(\""@ + stroke + "\"))\n"@,
        None => "#show raw.where(block: true): block.with(fill: rgb(\""@ + spec.code_fill
            + "\"), inset: 10pt, radius: 2pt, width: 100%)\n"@,
    }
}

pub open spec fn quote_setup(spec: ThemeSpecV) -> Seq<char> {
    "#show quote.where(block: true): set block(stroke: (left: 2pt + rgb(\""@ + spec.accent_color
        + "\")), inset: (left: 1em, y: 0.4em))\n\n"@
}

/// The set and show rules that carry the page layout and the theme.
pub open spec fn preamble_text(o: OptionsV, spec: ThemeSpecV, meta: MetaV) -> Seq<char> {
    page_setup(o, spec, meta) + text_setup(spec) + color_setup(spec) + code_setup(spec) + quote_setup(spec)
}

/// Author and date, escaped, joined by an em dash.
pub open spec fn byline(meta: MetaV) -> Seq<char> {
    match (meta.author, meta.date) {
        (Some(a), Some(d)) => escaped(a) + " — "@ + escaped(d),
        (Some(a), None) => escaped(a),
        (None, Some(d)) => escaped(d),
        (None, None) => seq![],
    }
}

pub open spec fn title_head(title: Seq<char>, spec: ThemeSpecV) -> Seq<char> {
    "#align(center)[\n  #text(size: 22pt, weight: \"bold\", fill: rgb(\""@ + spec.accent_color + "\"))["@ + lit(title) + "]\n"@
}

pub open spec fn subtitle_line(meta: MetaV) -> Seq<char> {
    match meta.subtitle {
        Some(sub) => "  #v(0.2em)\n  #text(size: 13pt)["@ + lit(sub) + "]\n"@,
        None => seq![],
    }
}

pub open spec fn byline_line(meta: MetaV) -> Seq<char> {
    if meta.author is Some || meta.date is Some {
        "  #v(0.3em)\n  #text(size: 10pt, fill: luma(90))[#\""@ + byline(meta) + "\"]\n"@
    } else {
        seq![]
    }
}

pub open spec fn title_tail(spec: ThemeSpecV) -> Seq<char> {
    "  #v(0.3em)\n  #line(length: 38%, stroke: 0.6pt + rgb(\""@ + spec.accent_color + "\"))\n]\n#v(1.4em)\n\n"@
}

/// The centered title block: title, subtitle, byline and a rule; nothing when
/// there is no title or it is blank.
pub open spec fn title_text(doc: DocumentV, spec: ThemeSpecV, o: OptionsV) -> Seq<char> {
    match title_of(doc, o.title) {
        None => seq![],
        Some(title) => if is_blank(title) {
            seq![]
        } else {
            title_head(title, spec) + subtitle_line(doc.meta) + byline_line(doc.meta) + title_tail(spec)
        },
    }
}

pub open spec fn toc_text(o: OptionsV) -> Seq<char> {
    if o.toc { "#outline(title: [Contents], indent: auto)\n#v(1.2em)\n\n"@ } else { seq![] }
}

/// The complete Typst source for `doc`.
pub open spec fn typst_document(doc: DocumentV, o: OptionsV, probes: Seq<(String, AssetProbe)>) -> Seq<char> {
    let spec = spec_of(o.theme);
    preamble_text(o, spec, doc.meta) + title_text(doc, spec, o) + toc_text(o)
        + ty_blocks(doc.blocks, Env { policy: o.security, probes })
}

/// The diagnostics of lowering `doc`.
pub open spec fn typst_notes(doc: DocumentV, o: OptionsV, probes: Seq<(String, AssetProbe)>) -> Seq<Seq<char>> {
    nt_blocks(doc.blocks, Env { policy: o.security, probes })
}

// ---------------------------------------------------------------- exec

pub open spec fn env_of(policy: &SecurityPolicy, probes: &AssetProbes) -> Env {
    Env { policy: policy@, probes: probes.entries@ }
}

/// Append `t`, escaped for a Typst string literal.
pub(crate) fn push_esc(s: &mut String, t: &str)
    ensures
        final(s)@ == old(s)@ + escaped(t@),
{
    let v = chars_of(t);
    let mut i: usize = 0;
    while i < v.len()
        invariant
            i <= v@.len(),
            v@ == t@,
            s@ == old(s)@ + escaped(v@.take(i as int)),
        decreases v.len() - i,
    {
        let c = v[i];
        proof {
            reveal_strlit("\\\\");
            reveal_strlit("\\\"");
            reveal_strlit("\\n");
            reveal_strlit("\\r");
            reveal_strlit("\\t");
        }
        if c == '\\' {
            s.append("\\\\");
        } else if c == '"' {
            s.append("\\\"");
        } else if c == '\n' {
            s.append("\\n");
        } else if c == '\r' {
            s.append("\\r");
        } else if c == '\t' {
            s.append("\\t");
        } else {
            crate::text::push_char(s, c);
        }
        assert(v@.take(i + 1).drop_last() =~= v@.take(i as int));
        assert(s@ =~= old(s)@ + escaped(v@.take(i + 1)));
        i = i + 1;
    }
    assert(v@.take(i as int) =~= v@);
}

/// Escape a string for inclusion inside a Typst `"…"` literal.
pub fn esc(input: &str) -> (o: String)
    ensures
        o@ == escaped(input@),
{
    let mut o = String::new();
    push_esc(&mut o, input);
    o
}

/// Append `t` as an inert Typst string: `#"…"`.
fn push_lit(s: &mut String, t: &str)
    ensures
        final(s)@ == old(s)@ + lit(t@),
{
    s.append("#\"");
    push_esc(s, t);
    s.append("\"");
}

fn emit_image(src: &String, alt: &String, width: &Option<String>, policy: &SecurityPolicy, probes: &AssetProbes, s: &mut String, diags: &mut Vec<Diagnostic>)
    ensures
        final(s)@ == old(s)@ + ty_inline(InlineV::Image { src: src@, alt: alt@, width: opt_v(*width) }, env_of(policy, probes)),
        messages(final(diags)@) == messages(old(diags)@) + nt_inline(InlineV::Image { src: src@, alt: alt@, width: opt_v(*width) }, env_of(policy, probes)),
{
    match policy.resolve_with(src.as_str(), probes) {
        AssetDecision::Allow(path) => {
            s.append("#image(\"");
            push_esc(s, path.as_str());
            s.append("\"");
            if let Some(w) = width {
                s.append(", width: ");
                s.append(w.as_str());
            }
            s.append(")");
            assert(messages(old(diags)@) + seq![] =~= messages(old(diags)@));
        },
        AssetDecision::Deny(reason) => {
            note(diags, reason);
            s.append("#emph[");
            push_lit(s, alt.as_str());
            s.append("]");
        },
    }
}

fn emit_inline(i: &Inline, policy: &SecurityPolicy, probes: &AssetProbes, s: &mut String, diags: &mut Vec<Diagnostic>)
    ensures
        final(s)@ == old(s)@ + ty_inline(i@, env_of(policy, probes)),
        messages(final(diags)@) == messages(old(diags)@) + nt_inline(i@, env_of(policy, probes)),
    decreases i,
{
    let ghost m0 = messages(diags@);
    match i {
        Inline::Text(t) => push_lit(s, t.as_str()),
        Inline::SoftBreak => s.append("#\" \""),
        Inline::LineBreak => s.append("#linebreak()"),
        Inline::Code(c) => {
            s.append("#raw(\"");
            push_esc(s, c.as_str());
            s.append("\")");
        },
        Inline::Emph(c) => {
            s.append("#emph[");
            emit_inlines(c, policy, probes, s, diags);
            s.append("]");
        },
        Inline::Strong(c) => {
            s.append("#strong[");
            emit_inlines(c, policy, probes, s, diags);
            s.append("]");
        },
        Inline::Strikethrough(c) => {
            s.append("#strike[");
            emit_inlines(c, policy, probes, s, diags);
            s.append("]");
        },
        Inline::Superscript(c) => {
            s.append("#super[");
            emit_inlines(c, policy, probes, s, diags);
            s.append("]");
        },
        Inline::Link { href, content } => {
            s.append("#link(\"");
            push_esc(s, href.as_str());
            s.append("\")[");
            emit_inlines(content, policy, probes, s, diags);
            s.append("]");
        },
        Inline::Image { src, alt, width } => emit_image(src, alt, width, policy, probes, s, diags),
        Inline::Footnote(blocks) => {
            s.append("#footnote[");
            emit_blocks(blocks, policy, probes, s, diags);
            s.append("]");
        },
    }
    assert(m0 + seq![] =~= m0);
}

fn emit_inlines(v: &Vec<Inline>, policy: &SecurityPolicy, probes: &AssetProbes, s: &mut String, diags: &mut Vec<Diagnostic>)
    ensures
        final(s)@ == old(s)@ + ty_inlines(inlines_v(v@), env_of(policy, probes)),
        messages(final(diags)@) == messages(old(diags)@) + nt_inlines(inlines_v(v@), env_of(policy, probes)),
    decreases v,
{
    let ghost e = env_of(policy, probes);
    let mut i: usize = 0;
    while i < v.len()
        invariant
            i <= v@.len(),
            e == env_of(policy, probes),
            s@ == old(s)@ + ty_inlines(inlines_v(v@.take(i as int)), e),
            messages(diags@) == messages(old(diags)@) + nt_inlines(inlines_v(v@.take(i as int)), e),
        decreases v.len() - i,
    {
        proof { lemma_inlines_v_step(v@, i as int); }
        emit_inline(&v[i], policy, probes, s, diags);
        assert(s@ =~= old(s)@ + ty_inlines(inlines_v(v@.take(i + 1)), e));
        assert(messages(diags@) =~= messages(old(diags)@) + nt_inlines(inlines_v(v@.take(i + 1)), e));
        i = i + 1;
    }
    assert(v@.take(i as int) =~= v@);
}

fn emit_blocks(v: &Vec<Block>, policy: &SecurityPolicy, probes: &AssetProbes, s: &mut String, diags: &mut Vec<Diagnostic>)
    ensures
        final(s)@ == old(s)@ + ty_blocks(blocks_v(v@), env_of(policy, probes)),
        messages(final(diags)@) == messages(old(diags)@) + nt_blocks(blocks_v(v@), env_of(policy, probes)),
    decreases v,
{
    let ghost e = env_of(policy, probes);
    let mut i: usize = 0;
    while i < v.len()
        invariant
            i <= v@.len(),
            e == env_of(policy, probes),
            s@ == old(s)@ + ty_blocks(blocks_v(v@.take(i as int)), e),
            messages(diags@) == messages(old(diags)@) + nt_blocks(blocks_v(v@.take(i as int)), e),
        decreases v.len() - i,
    {
        proof { lemma_blocks_v_step(v@, i as int); }
        emit_block(&v[i], policy, probes, s, diags);
        assert(s@ =~= old(s)@ + ty_blocks(blocks_v(v@.take(i + 1)), e));
        assert(messages(diags@) =~= messages(old(diags)@) + nt_blocks(blocks_v(v@.take(i + 1)), e));
        i = i + 1;
    }
    assert(v@.take(i as int) =~= v@);
}

fn emit_item_body(v: &Vec<Block>, policy: &SecurityPolicy, probes: &AssetProbes, s: &mut String, diags: &mut Vec<Diagnostic>)
    ensures
        final(s)@ == old(s)@ + ty_item_body(blocks_v(v@), env_of(policy, probes)),
        messages(final(diags)@) == messages(old(diags)@) + nt_blocks(blocks_v(v@), env_of(policy, probes)),
    decreases v,
{
    let ghost e = env_of(policy, probes);
    let mut i: usize = 0;
    while i < v.len()
        invariant
            i <= v@.len(),
            e == env_of(policy, probes),
            s@ == old(s)@ + ty_item_body(blocks_v(v@.take(i as int)), e),
            messages(diags@) == messages(old(diags)@) + nt_blocks(blocks_v(v@.take(i as int)), e),
        decreases v.len() - i,
    {
        proof { lemma_blocks_v_step(v@, i as int); }
        match &v[i] {
            Block::Paragraph(c) => {
                assert(nt_block(block_v(v@[i as int]), e) == nt_inlines(inlines_v(c@), e));
                if i > 0 {
                    s.append("#parbreak()");
                }
                emit_inlines(c, policy, probes, s, diags);
            },
            other => emit_block(other, policy, probes, s, diags),
        }
        assert(s@ =~= old(s)@ + ty_item_body(blocks_v(v@.take(i + 1)), e));
        assert(messages(diags@) =~= messages(old(diags)@) + nt_blocks(blocks_v(v@.take(i + 1)), e));
        i = i + 1;
    }
    assert(v@.take(i as int) =~= v@);
}

fn emit_items(v: &Vec<ListItem>, policy: &SecurityPolicy, probes: &AssetProbes, s: &mut String, diags: &mut Vec<Diagnostic>)
    ensures
        final(s)@ == old(s)@ + ty_items(items_v(v@), env_of(policy, probes)),
        messages(final(diags)@) == messages(old(diags)@) + nt_items(items_v(v@), env_of(policy, probes)),
    decreases v,
{
    let ghost e = env_of(policy, probes);
    let mut i: usize = 0;
    while i < v.len()
        invariant
            i <= v@.len(),
            e == env_of(policy, probes),
            s@ == old(s)@ + ty_items(items_v(v@.take(i as int)), e),
            messages(diags@) == messages(old(diags)@) + nt_items(items_v(v@.take(i as int)), e),
        decreases v.len() - i,
    {
        proof { lemma_items_v_step(v@, i as int); }
        let item = &v[i];
        s.append("  [");
        match item.task {
            Some(true) => push_lit(s, "☑ "),
            Some(false) => push_lit(s, "☐ "),
            None => {},
        }
        emit_item_body(&item.blocks, policy, probes, s, diags);
        s.append("],\n");
        assert(s@ =~= old(s)@ + ty_items(items_v(v@.take(i + 1)), e));
        assert(messages(diags@) =~= messages(old(diags)@) + nt_items(items_v(v@.take(i + 1)), e));
        i = i + 1;
    }
    assert(v@.take(i as int) =~= v@);
}

fn emit_cells(v: &Vec<Vec<Inline>>, policy: &SecurityPolicy, probes: &AssetProbes, s: &mut String, diags: &mut Vec<Diagnostic>)
    ensures
        final(s)@ == old(s)@ + ty_cells(cells_v(v@), env_of(policy, probes)),
        messages(final(diags)@) == messages(old(diags)@) + nt_cells(cells_v(v@), env_of(policy, probes)),
    decreases v,
{
    let ghost e = env_of(policy, probes);
    let mut i: usize = 0;
    while i < v.len()
        invariant
            i <= v@.len(),
            e == env_of(policy, probes),
            s@ == old(s)@ + ty_cells(cells_v(v@.take(i as int)), e),
            messages(diags@) == messages(old(diags)@) + nt_cells(cells_v(v@.take(i as int)), e),
        decreases v.len() - i,
    {
        proof { lemma_cells_v_step(v@, i as int); }
        s.append("[");
        emit_inlines(&v[i], policy, probes, s, diags);
        s.append("], ");
        assert(s@ =~= old(s)@ + ty_cells(cells_v(v@.take(i + 1)), e));
        assert(messages(diags@) =~= messages(old(diags)@) + nt_cells(cells_v(v@.take(i + 1)), e));
        i = i + 1;
    }
    assert(v@.take(i as int) =~= v@);
}

fn emit_rows(v: &Vec<Vec<Vec<Inline>>>, policy: &SecurityPolicy, probes: &AssetProbes, s: &mut String, diags: &mut Vec<Diagnostic>)
    ensures
        final(s)@ == old(s)@ + ty_rows(rows_v(v@), env_of(policy, probes)),
        messages(final(diags)@) == messages(old(diags)@) + nt_rows(rows_v(v@), env_of(policy, probes)),
    decreases v,
{
    let ghost e = env_of(policy, probes);
    let mut i: usize = 0;
    while i < v.len()
        invariant
            i <= v@.len(),
            e == env_of(policy, probes),
            s@ == old(s)@ + ty_rows(rows_v(v@.take(i as int)), e),
            messages(diags@) == messages(old(diags)@) + nt_rows(rows_v(v@.take(i as int)), e),
        decreases v.len() - i,
    {
        proof { lemma_rows_v_step(v@, i as int); }
        s.append("  ");
        emit_cells(&v[i], policy, probes, s, diags);
        s.append("\n");
        assert(s@ =~= old(s)@ + ty_rows(rows_v(v@.take(i + 1)), e));
        assert(messages(diags@) =~= messages(old(diags)@) + nt_rows(rows_v(v@.take(i + 1)), e));
        i = i + 1;
    }
    assert(v@.take(i as int) =~= v@);
}

fn emit_defs(v: &Vec<DefinitionItem>, policy: &SecurityPolicy, probes: &AssetProbes, s: &mut String, diags: &mut Vec<Diagnostic>)
    ensures
        final(s)@ == old(s)@ + ty_defs(defs_v(v@), env_of(policy, probes)),
        messages(final(diags)@) == messages(old(diags)@) + nt_defs(defs_v(v@), env_of(policy, probes)),
    decreases v,
{
    let ghost e = env_of(policy, probes);
    let mut i: usize = 0;
    while i < v.len()
        invariant
            i <= v@.len(),
            e == env_of(policy, probes),
            s@ == old(s)@ + ty_defs(defs_v(v@.take(i as int)), e),
            messages(diags@) == messages(old(diags)@) + nt_defs(defs_v(v@.take(i as int)), e),
        decreases v.len() - i,
    {
        proof { lemma_defs_v_step(v@, i as int); }
        s.append("  terms.item[");
        emit_inlines(&v[i].term, policy, probes, s, diags);
        s.append("][");
        emit_blocks(&v[i].details, policy, probes, s, diags);
        s.append("],\n");
        assert(s@ =~= old(s)@ + ty_defs(defs_v(v@.take(i + 1)), e));
        assert(messages(diags@) =~= messages(old(diags)@) + nt_defs(defs_v(v@.take(i + 1)), e));
        i = i + 1;
    }
    assert(v@.take(i as int) =~= v@);
}

fn push_aligns(align: &Vec<Align>, n: usize, s: &mut String)
    ensures
        final(s)@ == old(s)@ + ty_aligns(align@, n as nat),
{
    let mut i: usize = 0;
    while i < n
        invariant
            i <= n,
            s@ == old(s)@ + ty_aligns(align@, i as nat),
        decreases n - i,
    {
        let a = if i < align.len() { align[i] } else { Align::Unspecified };
        match a {
            Align::Center => s.append("center"),
            Align::Right => s.append("right"),
            _ => s.append("left"),
        }
        s.append(", ");
        i = i + 1;
    }
}

#[verifier::spinoff_prover]
#[verifier::rlimit(80)]
fn emit_block(b: &Block, policy: &SecurityPolicy, probes: &AssetProbes, s: &mut String, diags: &mut Vec<Diagnostic>)
    ensures
        final(s)@ == old(s)@ + ty_block(b@, env_of(policy, probes)),
        messages(final(diags)@) == messages(old(diags)@) + nt_block(b@, env_of(policy, probes)),
    decreases b,
{
    let ghost m0 = messages(diags@);
    match b {
        Block::Heading { level, content } => {
            s.append("#heading(level: ");
            let d = decimal_string(*level as u64);
            s.append(d.as_str());
            s.append(")[");
            emit_inlines(content, policy, probes, s, diags);
            s.append("]\n\n");
        },
        Block::Paragraph(c) => {
            emit_inlines(c, policy, probes, s, diags);
            s.append("\n\n");
        },
        Block::CodeBlock { lang, code } => {
            let mermaid = match lang {
                Some(l) => same(l.as_str(), "mermaid"),
                None => false,
            };
            if mermaid {
                note(diags, owned("mermaid diagram rendered as source (diagram support is planned)"));
            }
            s.append("#raw(block: true");
            if let Some(l) = lang {
                s.append(", lang: \"");
                push_esc(s, l.as_str());
                s.append("\"");
            }
            s.append(", \"");
            push_esc(s, code.as_str());
            s.append("\")\n\n");
        },
        Block::BlockQuote(bs) => {
            s.append("#quote(block: true)[\n");
            emit_blocks(bs, policy, probes, s, diags);
            s.append("]\n\n");
        },
        Block::List { ordered, items } => {
            if *ordered {
                s.append("#enum(\n");
            } else {
                s.append("#list(\n");
            }
            emit_items(items, policy, probes, s, diags);
            s.append(")\n\n");
        },
        Block::Table { align, head, rows } => {
            proof {
                lemma_cells_v(head@);
                lemma_rows_v(rows@);
                if rows@.len() > 0 {
                    lemma_cells_v(rows@[0]@);
                }
            }
            let first = if rows.len() > 0 { rows[0].len() } else { 0 };
            let mut n = head.len();
            if first > n { n = first; }
            if align.len() > n { n = align.len(); }
            if n < 1 { n = 1; }
            s.append("#table(\n  columns: ");
            let d = decimal_string(n as u64);
            s.append(d.as_str());
            s.append(",\n  align: (");
            push_aligns(align, n, s);
            s.append("),\n  stroke: 0.5pt + luma(190),\n");
            if head.len() > 0 {
                s.append("  table.header(");
                emit_cells(head, policy, probes, s, diags);
                s.append("),\n");
            } else {
                assert(messages(diags@) + seq![] =~= messages(diags@));
            }
            emit_rows(rows, policy, probes, s, diags);
            s.append(")\n\n");
        },
        Block::ThematicBreak => s.append("#line(length: 100%, stroke: 0.5pt + luma(180))\n#v(0.3em)\n\n"),
        Block::DefinitionList(d) => {
            s.append("#terms(\n");
            emit_defs(d, policy, probes, s, diags);
            s.append(")\n\n");
        },
        Block::Admonition { kind, title, blocks } => {
            s.append("#block(fill: luma(246), inset: 10pt, radius: 3pt, width: 100%, stroke: (left: 3pt + rgb(\"");
            match kind {
                AdmonitionKind::Note => s.append("#0969da"),
                AdmonitionKind::Tip => s.append("#1a7f37"),
                AdmonitionKind::Important => s.append("#8250df"),
                AdmonitionKind::Warning => s.append("#9a6700"),
                AdmonitionKind::Caution => s.append("#cf222e"),
            }
            s.append("\")))[\n#strong[");
            push_lit(s, title.as_str());
            s.append("]\n\n");
            emit_blocks(blocks, policy, probes, s, diags);
            s.append("]\n\n");
        },
        Block::RawHtml(_) => {
            note(diags, owned("raw HTML block dropped (disabled for safety)"));
        },
    }
    assert(m0 + seq![] =~= m0);
    assert(s@ =~= old(s)@ + ty_block(b@, env_of(policy, probes)));
}

fn push_furniture(s: &mut String, template: &str, meta: &Meta)
    ensures
        final(s)@ == old(s)@ + furniture(substituted(template@, meta@)),
{
    let text = substitute_meta(template, meta);
    s.append("align(center, text(size: 9pt, fill: luma(120))[");
    push_lit(s, text.as_str());
    s.append("])");
}

#[verifier::rlimit(100)]
#[verifier::spinoff_prover]
fn push_page_setup(s: &mut String, spec: &ThemeSpec, opts: &RenderOptions, meta: &Meta)
    ensures
        final(s)@ == old(s)@ + page_setup(opts@, spec@, meta@),
{
    s.append("#set page(paper: \"");
    s.append(opts.paper.typst_name());
    s.append("\", margin: (x: ");
    s.append(spec.margin_x_cm.as_str());
    s.append("cm, y: ");
    s.append(spec.margin_y_cm.as_str());
    s.append("cm)");
    let ghost a = s@;
    if opts.layout.page_numbers {
        s.append(", numbering: \"1\"");
    }
    let ghost b = s@;
    if let Some(h) = &opts.layout.header {
        s.append(", header: ");
        push_furniture(s, h.as_str(), meta);
    }
    let ghost c = s@;
    if let Some(f) = &opts.layout.footer {
        s.append(", footer: ");
        push_furniture(s, f.as_str(), meta);
    }
    let ghost d = s@;
    s.append(")\n");
    assert(b =~= a + (if opts.layout.page_numbers { ", numbering: \"1\""@ } else { seq![] }));
    assert(c =~= b + match opts@.layout.header {
            Some(h) => ", header: "@ + furniture(substituted(h, meta@)),
            None => seq![],
        });
    assert(d =~= c + match opts@.layout.footer {
            Some(f) => ", footer: "@ + furniture(substituted(f, meta@)),
            None => seq![],
        });
    assert(s@ =~= old(s)@ + page_setup(opts@, spec@, meta@));
}

fn push_text_setup(s: &mut String, spec: &ThemeSpec)
    ensures
        final(s)@ == old(s)@ + text_setup(spec@),
{
    s.append("#set text(font: \"");
    s.append(spec.body_font.as_str());
    s.append("\", size: ");
    s.append(spec.body_size_pt.as_str());
    s.append("pt, lang: \"en\")\n");
    s.append("#set par(justify: ");
    if spec.justify { s.append("true"); } else { s.append("false"); }
    s.append(", leading: 0.65em, first-line-indent: ");
    s.append(spec.first_line_indent_em.as_str());
    s.append("em)\n");
    assert(s@ =~= old(s)@ + text_setup(spec@));
}

fn push_color_setup(s: &mut String, spec: &ThemeSpec)
    ensures
        final(s)@ == old(s)@ + color_setup(spec@),
{
    s.append("#show heading: set text(fill: rgb(\"");
    s.append(spec.heading_color.as_str());
    s.append("\"))\n");
    s.append("#show heading.where(level: 1): set text(size: 1.5em)\n");
    s.append("#show link: set text(fill: rgb(\"");
    s.append(spec.link_color.as_str());
    s.append("\"))\n");
    s.append("#show raw: set text(font: \"");
    s.append(spec.mono_font.as_str());
    s.append("\", size: 9.5pt)\n");
    assert(s@ =~= old(s)@ + color_setup(spec@));
}

fn push_code_setup(s: &mut String, spec: &ThemeSpec)
    ensures
        final(s)@ == old(s)@ + code_setup(spec@),
{
    match &spec.code_stroke {
        Some(stroke) => {
            s.append("#show raw.where(block: true): block.with(fill: rgb(\"");
            s.append(spec.code_fill.as_str());
            s.append("\"), inset: 10pt, radius: 4pt, width: 100%, stroke: 0.5pt + rgb(\"");
            s.append(stroke.as_str());
            s.append("\"))\n");
        },
        None => {
            s.append("#show raw.where(block: true): block.with(fill: rgb(\"");
            s.append(spec.code_fill.as_str());
            s.append("\"), inset: 10pt, radius: 2pt, width: 100%)\n");
        },
    }
    assert(s@ =~= old(s)@ + code_setup(spec@));
}

fn preamble(s: &mut String, spec: &ThemeSpec, opts: &RenderOptions, meta: &Meta)
    ensures
        final(s)@ == old(s)@ + preamble_text(opts@, spec@, meta@),
{
    push_page_setup(s, spec, opts, meta);
    push_text_setup(s, spec);
    push_color_setup(s, spec);
    push_code_setup(s, spec);
    s.append("#show quote.where(block: true): set block(stroke: (left: 2pt + rgb(\"");
    s.append(spec.accent_color.as_str());
    s.append("\")), inset: (left: 1em, y: 0.4em))\n\n");
    assert(s@ =~= old(s)@ + preamble_text(opts@, spec@, meta@));
}

/// The explicit title override of the options, as a string slice.
pub fn title_override(opts: &RenderOptions) -> (t: Option<&str>)
    ensures
        match t {
            Some(s) => opt_v(opts.title) == Some(s@),
            None => opts.title is None,
        },
{
    match &opts.title {
        Some(t) => Some(t.as_str()),
        None => None,
    }
}

/// Whether `s` is empty or only whitespace.
pub fn blank(s: &str) -> (b: bool)
    ensures
        b == is_blank(s@),
{
    let v = chars_of(s);
    assert(v@.subrange(0, v@.len() as int) =~= v@);
    all_ws(&v, 0, v.len())
}

#[verifier::rlimit(100)]
fn title_block(s: &mut String, doc: &Document, spec: &ThemeSpec, opts: &RenderOptions)
    ensures
        final(s)@ == old(s)@ + title_text(doc@, spec@, opts@),
{
    let o = title_override(opts);
    let title = match doc.resolve_title(o) {
        Some(t) => t,
        None => {
            assert(old(s)@ + seq![] =~= old(s)@);
            return;
        },
    };
    if blank(title.as_str()) {
        assert(old(s)@ + seq![] =~= old(s)@);
        return;
    }
    let ghost s0 = s@;
    s.append("#align(center)[\n  #text(size: 22pt, weight: \"bold\", fill: rgb(\"");
    s.append(spec.accent_color.as_str());
    s.append("\"))[");
    push_lit(s, title.as_str());
    s.append("]\n");
    assert(s@ =~= s0 + title_head(title@, spec@));
    let ghost s1 = s@;
    if let Some(sub) = &doc.meta.subtitle {
        s.append("  #v(0.2em)\n  #text(size: 13pt)[");
        push_lit(s, sub.as_str());
        s.append("]\n");
    }
    assert(s@ =~= s1 + subtitle_line(doc.meta@));
    let ghost s2 = s@;
    if doc.meta.author.is_some() || doc.meta.date.is_some() {
        s.append("  #v(0.3em)\n  #text(size: 10pt, fill: luma(90))[#\"");
        let ghost s3 = s@;
        match (&doc.meta.author, &doc.meta.date) {
            (Some(a), Some(d)) => {
                push_esc(s, a.as_str());
                s.append(" — ");
                push_esc(s, d.as_str());
            },
            (Some(a), None) => push_esc(s, a.as_str()),
            (None, Some(d)) => push_esc(s, d.as_str()),
            (None, None) => {},
        }
        assert(s@ =~= s3 + byline(doc.meta@));
        s.append("\"]\n");
    }
    assert(s@ =~= s2 + byline_line(doc.meta@));
    let ghost s4 = s@;
    s.append("  #v(0.3em)\n  #line(length: 38%, stroke: 0.6pt + rgb(\"");
    s.append(spec.accent_color.as_str());
    s.append("\"))\n]\n#v(1.4em)\n\n");
    assert(s@ =~= s4 + title_tail(spec@));
    assert(s@ =~= old(s)@ + title_text(doc@, spec@, opts@));
}

/// Produce the complete Typst source for `doc`, recording diagnostics for
/// denied images, unrendered diagrams and dropped raw HTML.
pub fn lower(doc: &Document, opts: &RenderOptions, probes: &AssetProbes, diags: &mut Vec<Diagnostic>) -> (s: String)
    ensures
        s@ == typst_document(doc@, opts@, probes.entries@),
        messages(final(diags)@) == messages(old(diags)@) + typst_notes(doc@, opts@, probes.entries@),
{
    let spec = opts.theme.spec();
    let mut s = String::new();
    preamble(&mut s, &spec, opts, &doc.meta);
    title_block(&mut s, doc, &spec, opts);
    if opts.toc {
        s.append("#outline(title: [Contents], indent: auto)\n#v(1.2em)\n\n");
    }
    emit_blocks(&doc.blocks, &opts.security, probes, &mut s, diags);
    assert(s@ =~= typst_document(doc@, opts@, probes.entries@));
    s
}

/// The UTF-8 bytes of a string.
pub(crate) fn utf8_bytes(s: String) -> (b: Vec<u8>)
    ensures
        b@ == encode_utf8(s@),
{
    s.as_str().as_bytes_vec()
}

#[verifier::external_type_specification]
#[verifier::external_body]
pub struct ExPagedDocument(typst::layout::PagedDocument);

/// What a Typst compile was given: the source, the directory files are
/// read from, and whether system and embedded fonts are searched.
pub struct CompileV {
    pub source: Seq<char>,
    pub root: Seq<char>,
    pub system_fonts: bool,
    pub embedded_fonts: bool,
}

/// A compiled Typst document, with the record of what it was compiled from.
pub struct CompiledB {
    doc: typst::layout::PagedDocument,
    g: Ghost<CompileV>,
}

impl CompiledB {
    pub closed spec fn made_from(&self) -> CompileV {
        self.g@
    }
}

/// PDF bytes, with the record of the compile they were written from.
pub struct PdfB {
    bytes: Vec<u8>,
    g: Ghost<CompileV>,
}

impl PdfB {
    pub closed spec fn made_from(&self) -> CompileV {
        self.g@
    }

    /// The PDF bytes.
    pub fn into_bytes(self) -> Vec<u8> {
        self.bytes
    }
}

/// Compiles Typst `source` with `typst_as_lib::TypstEngine`: fonts are
/// searched with `include_system_fonts(system_fonts)` and
/// `include_embedded_fonts(embedded_fonts)`, files (images) are read from
/// under `root`. The document depends on those files and fonts, so nothing
/// is claimed of it beyond the record of these arguments; an error comes
/// back as its `Display` text.
#[verifier::external_body]
pub(crate) fn compile_typst(source: String, root: &str, system_fonts: bool, embedded_fonts: bool) -> (r: Result<CompiledB, String>)
    ensures
        r matches Ok(c) ==> c.made_from() == (CompileV { source: source@, root: root@, system_fonts, embedded_fonts }),
{
    let g = Ghost(CompileV { source: source@, root: root@, system_fonts, embedded_fonts });
    let engine = typst_as_lib::TypstEngine::builder()
        .main_file(source)
        .with_file_system_resolver(std::path::PathBuf::from(root))
        .search_fonts_with(
            typst_as_lib::typst_kit_options::TypstKitFontOptions::default()
                .include_system_fonts(system_fonts)
                .include_embedded_fonts(embedded_fonts),
        )
        .build();
    engine.compile().output.map(|doc| CompiledB { doc, g }).map_err(|e| e.to_string())
}

/// Writes a compiled document as PDF with `typst_pdf::pdf` and default
/// options; an error comes back as the `Debug` text of its diagnostics.
/// Nothing is claimed of the bytes beyond the record of the compile they
/// come from.
#[verifier::external_body]
pub(crate) fn pdf_bytes(c: &CompiledB) -> (r: Result<PdfB, String>)
    ensures
        r matches Ok(p) ==> p.made_from() == c.made_from(),
{
    let g = Ghost(c.g@);
    typst_pdf::pdf(&c.doc, &typst_pdf::PdfOptions::default()).map(|bytes| PdfB { bytes, g }).map_err(|errors| format!("{errors:?}"))
}

/// Renders a document to Typst source (`.typ`).
pub struct TypstSourceRenderer;

/// Renders a document to a PDF, fully in-process with embedded fonts.
pub struct TypstPdfRenderer;

impl Renderer for TypstSourceRenderer {
    fn format(&self) -> (f: OutputFormat)
        ensures
            f == OutputFormat::Typst,
    {
        OutputFormat::Typst
    }

    /// The lowered Typst source as UTF-8, with its diagnostics.
    fn render(&self, doc: &Document, opts: &RenderOptions, probes: &AssetProbes, files: &AssetFiles) -> (r: Result<Rendered, String>)
        ensures
            r matches Ok(out) && out.bytes@ == encode_utf8(typst_document(doc@, opts@, probes.entries@))
                && messages(out.diagnostics@) == typst_notes(doc@, opts@, probes.entries@)
                && out.handed@ == Handover::Own,
    {
        let mut diagnostics: Vec<Diagnostic> = Vec::new();
        let source = lower(doc, opts, probes, &mut diagnostics);
        assert(messages(Seq::<Diagnostic>::empty()) + typst_notes(doc@, opts@, probes.entries@) =~= typst_notes(doc@, opts@, probes.entries@));
        Ok(Rendered { bytes: utf8_bytes(source), diagnostics, handed: Ghost(Handover::Own) })
    }
}

impl Renderer for TypstPdfRenderer {
    fn format(&self) -> (f: OutputFormat)
        ensures
            f == OutputFormat::Pdf,
    {
        OutputFormat::Pdf
    }

    /// Compile the lowered Typst source to a PDF, with the embedded fonts
    /// only (no system fonts, so the output does not depend on the machine)
    /// and images read from under the policy root. The diagnostics are those
    /// of the lowering; compilation errors come back as `Err`.
    fn render(&self, doc: &Document, opts: &RenderOptions, probes: &AssetProbes, files: &AssetFiles) -> (r: Result<Rendered, String>)
        ensures
            r matches Ok(out) ==> messages(out.diagnostics@) == typst_notes(doc@, opts@, probes.entries@)
                && out.handed@ == (Handover::Typst {
                    source: typst_document(doc@, opts@, probes.entries@),
                    root: opts@.security.root,
                    system_fonts: false,
                    embedded_fonts: true,
                }),
            r matches Err(e) ==> crate::text::starts_with(e@, "typst compilation failed: "@)
                || crate::text::starts_with(e@, "could not generate PDF: "@),
    {
        let mut diagnostics: Vec<Diagnostic> = Vec::new();
        let source = lower(doc, opts, probes, &mut diagnostics);
        assert(messages(Seq::<Diagnostic>::empty()) + typst_notes(doc@, opts@, probes.entries@) =~= typst_notes(doc@, opts@, probes.entries@));
        let compiled = match compile_typst(source, opts.security.root.as_str(), false, true) {
            Ok(d) => d,
            Err(e) => {
                let mut m = owned("typst compilation failed: ");
                m.append(e.as_str());
                proof { crate::text::lemma_starts_with_concat("typst compilation failed: "@, e@); }
                return Err(m);
            },
        };
        match pdf_bytes(&compiled) {
            Ok(pdf) => {
                let ghost from = pdf.made_from();
                Ok(Rendered {
                    bytes: pdf.bytes,
                    diagnostics,
                    handed: Ghost(Handover::Typst { source: from.source, root: from.root, system_fonts: from.system_fonts, embedded_fonts: from.embedded_fonts }),
                })
            },
            Err(e) => {
                let mut m = owned("could not generate PDF: ");
                m.append(e.as_str());
                proof { crate::text::lemma_starts_with_concat("could not generate PDF: "@, e@); }
                Err(m)
            },
        }
    }
}

/// Ordered lists stay numbered: the Typst for a list block opens with
/// `#enum(` exactly when the list is ordered, and with `#list(` exactly when
/// it is not.
pub proof fn law_list_kind(ordered: bool, items: Seq<ItemV>, env: Env)
    ensures
        crate::text::starts_with(ty_block(BlockV::List { ordered, items }, env), "#enum("@) == ordered,
        crate::text::starts_with(ty_block(BlockV::List { ordered, items }, env), "#list("@) == !ordered,
{
    reveal_strlit("#enum(");
    reveal_strlit("#list(");
    reveal_strlit("#enum(\n");
    reveal_strlit("#list(\n");
    let out = ty_block(BlockV::List { ordered, items }, env);
    let open = if ordered { "#enum(\n"@ } else { "#list(\n"@ };
    assert(out == open + ty_items(items, env) + ")\n\n"@);
    assert(out.len() >= 7);
    assert(out[1] == open[1]);
    assert(out.take(6) =~= open.take(6));
    if ordered {
        assert(out.take(6) =~= "#enum("@);
        assert(out.take(6)[1] != "#list("@[1]);
    } else {
        assert(out.take(6) =~= "#list("@);
        assert(out.take(6)[1] != "#enum("@[1]);
    }
}

} // verus!
