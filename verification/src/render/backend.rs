//! Picking a back-end by output format.

use vstd::prelude::*;
use crate::ir::{BlockV, Document, DocumentV, InlineV};
use crate::render::{messages, Handover, OptionsV, OutputFormat, RenderOptions, Rendered, Renderer};
use crate::render::docx::{docx_handover, TOO_MANY_PARAGRAPHS};
use crate::render::docx::writer::docx_parts;
use crate::text::starts_with;
use crate::render::docx::lower::AssetFiles;
use crate::render::docx::model::{add_item, d_block, d_body, d_image, docx_model, note_i, plain_fmt, styled, DItemV, DocxEnv, Fmt, BS, IS};
use crate::render::docx::DocxRenderer;
use crate::render::html::{diag, escaped, h_block, h_inline, html_notes, html_page, put, HtmlRenderer, HS};
use crate::render::typst::{image_decision, lit, nt_block, nt_inline, raw_html_note, ty_block, ty_inline, typst_document, typst_notes, wrapped, Env, TypstPdfRenderer, TypstSourceRenderer};
use crate::security::{is_remote_ref, probe_for, AssetProbe, AssetProbes};
use crate::theme::{spec_of, ThemeV};
use vstd::utf8::encode_utf8;

verus! {

/// The back-end for one output format.
pub enum Backend {
    Pdf(TypstPdfRenderer),
    Typst(TypstSourceRenderer),
    Html(HtmlRenderer),
    Docx(DocxRenderer),
}

pub open spec fn backend_format(b: Backend) -> OutputFormat {
    match b {
        Backend::Pdf(_) => OutputFormat::Pdf,
        Backend::Typst(_) => OutputFormat::Typst,
        Backend::Html(_) => OutputFormat::Html,
        Backend::Docx(_) => OutputFormat::Docx,
    }
}

/// What a render in `format` owes: the exact Typst source or HTML page with
/// its diagnostics, made by the library itself; for a PDF, the diagnostics
/// and the Typst source handed to the compiler; for a DOCX, the diagnostics
/// and the document handed to `docx-rs` with the parts packed; and for
/// either of these, an error only of the kinds their renderers name.
pub open spec fn render_result(
    format: OutputFormat,
    doc: DocumentV,
    o: OptionsV,
    probes: Seq<(String, AssetProbe)>,
    files: Seq<(String, Result<Vec<u8>, String>)>,
    r: Result<Rendered, String>,
) -> bool {
    let de = DocxEnv { env: crate::render::typst::Env { policy: o.security, probes }, files, link_color: spec_of(o.theme).link_color };
    match format {
        OutputFormat::Typst => r matches Ok(out) && out.bytes@ == encode_utf8(typst_document(doc, o, probes))
            && messages(out.diagnostics@) == typst_notes(doc, o, probes) && out.handed@ == Handover::Own,
        OutputFormat::Html => r matches Ok(out) && out.bytes@ == encode_utf8(html_page(doc, o, probes))
            && messages(out.diagnostics@) == html_notes(doc, o, probes) && out.handed@ == Handover::Own,
        OutputFormat::Pdf => match r {
            Ok(out) => messages(out.diagnostics@) == typst_notes(doc, o, probes)
                && out.handed@ == (Handover::Typst { source: typst_document(doc, o, probes), root: o.security.root, system_fonts: false, embedded_fonts: true }),
            Err(e) => starts_with(e@, "typst compilation failed: "@) || starts_with(e@, "could not generate PDF: "@),
        },
        OutputFormat::Docx => match r {
            Ok(out) => messages(out.diagnostics@) == d_body(doc, o, de).diags
                && docx_handover(out.handed@, docx_parts(docx_model(doc, o, de))),
            Err(e) => e@ == TOO_MANY_PARAGRAPHS@ || starts_with(e@, "could not pack docx: "@),
        },
    }
}

/// The default back-end for a given output format.
pub fn for_format(format: OutputFormat) -> (b: Backend)
    ensures
        backend_format(b) == format,
{
    match format {
        OutputFormat::Pdf => Backend::Pdf(TypstPdfRenderer),
        OutputFormat::Typst => Backend::Typst(TypstSourceRenderer),
        OutputFormat::Html => Backend::Html(HtmlRenderer),
        OutputFormat::Docx => Backend::Docx(DocxRenderer),
    }
}

impl Renderer for Backend {
    /// The format this back-end emits.
    fn format(&self) -> (f: OutputFormat)
        ensures
            f == backend_format(*self),
    {
        match self {
            Backend::Pdf(r) => r.format(),
            Backend::Typst(r) => r.format(),
            Backend::Html(r) => r.format(),
            Backend::Docx(r) => r.format(),
        }
    }

    /// Render `doc`: `probes` are the facts about referenced images, `files`
    /// the bytes read for the allowed ones (used by the DOCX back-end).
    fn render(&self, doc: &Document, opts: &RenderOptions, probes: &AssetProbes, files: &AssetFiles) -> (r: Result<Rendered, String>)
        ensures
            render_result(backend_format(*self), doc@, opts@, probes.entries@, files.entries@, r),
    {
        match self {
            Backend::Pdf(x) => x.render(doc, opts, probes, files),
            Backend::Typst(x) => x.render(doc, opts, probes, files),
            Backend::Html(x) => x.render(doc, opts, probes, files),
            Backend::Docx(x) => x.render(doc, opts, probes, files),
        }
    }
}

/// Raw HTML never reaches an output: the Typst, HTML and DOCX back-ends
/// write nothing for it and each records the same diagnostic.
pub proof fn law_raw_html_dropped(h: Seq<char>, env: Env, hs: HS, indent: i64, de: DocxEnv, bs: BS)
    ensures
        ty_block(BlockV::RawHtml(h), env) == Seq::<char>::empty(),
        nt_block(BlockV::RawHtml(h), env) == seq![raw_html_note()],
        h_block(BlockV::RawHtml(h), env, hs).out == hs.out,
        h_block(BlockV::RawHtml(h), env, hs).diags == hs.diags.push(raw_html_note()),
        d_block(BlockV::RawHtml(h), indent, de, bs).diags == bs.diags.push(raw_html_note()),
        d_block(BlockV::RawHtml(h), indent, de, bs).parts == bs.parts,
{
}

/// A remote image is never referenced by any back-end: each writes the alt
/// text in italics in its place and records why.
pub proof fn law_remote_image_as_alt(src: Seq<char>, alt: Seq<char>, width: Option<Seq<char>>, env: Env, hs: HS, de: DocxEnv, is: IS)
    requires
        is_remote_ref(src),
        de.env == env,
    ensures
        ty_inline(InlineV::Image { src, alt, width }, env) == wrapped("#emph["@, lit(alt)),
        nt_inline(InlineV::Image { src, alt, width }, env) == seq![image_decision(env, src)->Deny_0],
        h_inline(InlineV::Image { src, alt, width }, env, hs) == put(diag(hs, image_decision(env, src)->Deny_0), "<em>"@ + escaped(alt) + "</em>"@),
        d_image(src, alt, width, de, is) == add_item(
            note_i(is, image_decision(env, src)->Deny_0),
            DItemV::Run(styled(alt, Fmt { italic: true, ..plain_fmt() })),
        ),
{
    crate::security::law_remote_denied(env.policy, src, probe_for(env.probes, src));
}

/// The Typst source and the HTML page are functions of the document, the
/// options and the asset facts: rendering the same input twice gives the
/// same bytes and the same diagnostics.
pub proof fn law_deterministic(
    format: OutputFormat,
    doc: DocumentV,
    o: OptionsV,
    probes: Seq<(String, AssetProbe)>,
    files: Seq<(String, Result<Vec<u8>, String>)>,
    r1: Result<Rendered, String>,
    r2: Result<Rendered, String>,
)
    requires
        format == OutputFormat::Typst || format == OutputFormat::Html,
        render_result(format, doc, o, probes, files, r1),
        render_result(format, doc, o, probes, files, r2),
    ensures
        r1 matches Ok(a) && r2 matches Ok(b) && a.bytes@ == b.bytes@ && messages(a.diagnostics@) == messages(b.diagnostics@),
{
}

/// The back-ends read a theme only through its spec: two themes with the
/// same spec give the same Typst source and the same HTML page.
pub proof fn law_theme_only_by_spec(doc: DocumentV, o: OptionsV, t: ThemeV, probes: Seq<(String, AssetProbe)>)
    requires
        spec_of(t) == spec_of(o.theme),
    ensures
        typst_document(doc, OptionsV { theme: t, ..o }, probes) == typst_document(doc, o, probes),
        typst_notes(doc, OptionsV { theme: t, ..o }, probes) == typst_notes(doc, o, probes),
        html_page(doc, OptionsV { theme: t, ..o }, probes) == html_page(doc, o, probes),
        html_notes(doc, OptionsV { theme: t, ..o }, probes) == html_notes(doc, o, probes),
{
}

} // verus!
