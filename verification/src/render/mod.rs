//! Rendering back-ends.
//!
//! A back-end turns a [`Document`](crate::ir::Document) plus
//! [`RenderOptions`] into bytes. The Typst source, PDF, HTML and DOCX
//! back-ends are interchangeable; callers pick one by [`OutputFormat`].

use vstd::prelude::*;
use crate::ir::{opt_v, Meta, MetaV};
use crate::security::{PolicyV, SecurityPolicy};
use crate::text::{ascii_lower_seq, replace_all, replace_str, same, to_ascii_lower};
use crate::theme::{Theme, ThemeV};
use crate::render::docx::writer::DocV;
use crate::render::docx::lower::AssetFiles;
use crate::security::AssetProbes;
use crate::ir::Document;

pub mod typst;
pub mod html;
pub mod docx;
pub mod backend;
pub mod anchors;

verus! {

/// Output formats that can be emitted.
#[derive(PartialEq, Eq, Structural, Clone, Copy, Debug)]
pub enum OutputFormat {
    Pdf,
    /// The generated Typst source.
    Typst,
    /// A standalone HTML page with the theme inlined as CSS.
    Html,
    /// An OOXML word-processing document (experimental).
    Docx,
}

/// The format a file extension names, ignoring ASCII case.
pub open spec fn format_for_extension(ext: Seq<char>) -> Option<OutputFormat> {
    let e = ascii_lower_seq(ext);
    if e == "pdf"@ {
        Some(OutputFormat::Pdf)
    } else if e == "typ"@ || e == "typst"@ {
        Some(OutputFormat::Typst)
    } else if e == "html"@ || e == "htm"@ {
        Some(OutputFormat::Html)
    } else if e == "docx"@ {
        Some(OutputFormat::Docx)
    } else {
        None
    }
}

pub open spec fn extension_of(f: OutputFormat) -> Seq<char> {
    match f {
        OutputFormat::Pdf => "pdf"@,
        OutputFormat::Typst => "typ"@,
        OutputFormat::Html => "html"@,
        OutputFormat::Docx => "docx"@,
    }
}

impl OutputFormat {
    /// The format a file extension names (`pdf`, `typ`/`typst`, `html`/`htm`,
    /// `docx`), ignoring ASCII case.
    pub fn from_extension(ext: &str) -> (f: Option<OutputFormat>)
        ensures
            f == format_for_extension(ext@),
    {
        let e = to_ascii_lower(ext);
        let e = e.as_str();
        if same(e, "pdf") {
            Some(OutputFormat::Pdf)
        } else if same(e, "typ") || same(e, "typst") {
            Some(OutputFormat::Typst)
        } else if same(e, "html") || same(e, "htm") {
            Some(OutputFormat::Html)
        } else if same(e, "docx") {
            Some(OutputFormat::Docx)
        } else {
            None
        }
    }

    /// The file extension for this format.
    pub fn extension(self) -> (e: &'static str)
        ensures
            e@ == extension_of(self),
    {
        match self {
            OutputFormat::Pdf => "pdf",
            OutputFormat::Typst => "typ",
            OutputFormat::Html => "html",
            OutputFormat::Docx => "docx",
        }
    }
}

/// Paper sizes.
#[derive(PartialEq, Eq, Structural, Clone, Copy, Debug)]
pub enum Paper {
    A4,
    A5,
    Letter,
    Legal,
}

pub open spec fn paper_typst_name(p: Paper) -> Seq<char> {
    match p {
        Paper::A4 => "a4"@,
        Paper::A5 => "a5"@,
        Paper::Letter => "us-letter"@,
        Paper::Legal => "us-legal"@,
    }
}

impl Paper {
    /// The name Typst's `page(paper: …)` knows this size by.
    pub fn typst_name(self) -> (n: &'static str)
        ensures
            n@ == paper_typst_name(self),
    {
        match self {
            Paper::A4 => "a4",
            Paper::A5 => "a5",
            Paper::Letter => "us-letter",
            Paper::Legal => "us-legal",
        }
    }
}

/// Page furniture: running header/footer text and page numbering. Header
/// and footer may contain `{title}`, `{author}` and `{date}` placeholders.
#[derive(Debug)]
pub struct Layout {
    pub header: Option<String>,
    pub footer: Option<String>,
    pub page_numbers: bool,
}

pub struct LayoutV {
    pub header: Option<Seq<char>>,
    pub footer: Option<Seq<char>>,
    pub page_numbers: bool,
}

impl View for Layout {
    type V = LayoutV;

    open spec fn view(&self) -> LayoutV {
        LayoutV { header: opt_v(self.header), footer: opt_v(self.footer), page_numbers: self.page_numbers }
    }
}

impl Default for Layout {
    fn default() -> (l: Layout)
        ensures
            l@ == (LayoutV { header: None, footer: None, page_numbers: true }),
    {
        Layout { header: None, footer: None, page_numbers: true }
    }
}

/// Everything a back-end needs beyond the document itself.
#[derive(Debug)]
pub struct RenderOptions {
    pub theme: Theme,
    pub paper: Paper,
    pub toc: bool,
    pub title: Option<String>,
    pub layout: Layout,
    pub security: SecurityPolicy,
}

pub struct OptionsV {
    pub theme: ThemeV,
    pub paper: Paper,
    pub toc: bool,
    pub title: Option<Seq<char>>,
    pub layout: LayoutV,
    pub security: PolicyV,
}

impl View for RenderOptions {
    type V = OptionsV;

    open spec fn view(&self) -> OptionsV {
        OptionsV {
            theme: self.theme@,
            paper: self.paper,
            toc: self.toc,
            title: opt_v(self.title),
            layout: self.layout@,
            security: self.security@,
        }
    }
}

/// A non-fatal note produced while rendering (e.g. a skipped asset).
#[derive(Debug)]
pub struct Diagnostic {
    pub message: String,
}

impl Diagnostic {
    pub fn new(message: String) -> (d: Diagnostic)
        ensures
            d.message@ == message@,
    {
        Diagnostic { message }
    }
}

/// The messages of a list of diagnostics.
pub open spec fn messages(d: Seq<Diagnostic>) -> Seq<Seq<char>>
    decreases d.len(),
{
    if d.len() == 0 { seq![] } else { messages(d.drop_last()).push(d.last().message@) }
}

pub proof fn lemma_messages_step(d: Seq<Diagnostic>, i: int)
    requires
        0 <= i < d.len(),
    ensures
        messages(d.take(i + 1)) == messages(d.take(i)).push(d[i].message@),
{
    assert(d.take(i + 1).drop_last() =~= d.take(i));
}

/// What a back-end handed to an outside engine to make its bytes.
pub enum Handover {
    /// Nothing: the library wrote the bytes itself.
    Own,
    /// Typst source compiled with images read from under `root` and the
    /// given font sources.
    Typst { source: Seq<char>, root: Seq<char>, system_fonts: bool, embedded_fonts: bool },
    /// The document record handed to `docx-rs`, the numbered parts it wrote,
    /// and the parts that went into the package.
    Docx { document: DocV, written: Seq<Seq<u8>>, packed: Seq<Seq<u8>> },
}

/// The output of a render: bytes plus any diagnostics worth surfacing, and
/// a record of what went to an outside engine for them.
pub struct Rendered {
    pub bytes: Vec<u8>,
    pub diagnostics: Vec<Diagnostic>,
    pub handed: Ghost<Handover>,
}

/// A rendering back-end: the format it emits, and a render of a document
/// given the facts about the images it references and the bytes read for
/// the allowed ones. Other back-ends can plug in by implementing it.
pub trait Renderer {
    fn format(&self) -> OutputFormat;

    fn render(&self, doc: &Document, opts: &RenderOptions, probes: &AssetProbes, files: &AssetFiles) -> Result<Rendered, String>;
}

/// Record a diagnostic.
pub fn note(diags: &mut Vec<Diagnostic>, message: String)
    ensures
        messages(final(diags)@) == messages(old(diags)@).push(message@),
{
    diags.push(Diagnostic::new(message));
    assert(final(diags)@.drop_last() =~= old(diags)@);
}

pub open spec fn or_empty(o: Option<Seq<char>>) -> Seq<char> {
    match o {
        Some(s) => s,
        None => seq![],
    }
}

/// `template` with `{title}`, `{author}` and `{date}` replaced, in that order,
/// by the metadata (an unset field gives the empty string).
pub open spec fn substituted(template: Seq<char>, meta: MetaV) -> Seq<char> {
    replace_all(
        replace_all(replace_all(template, "{title}"@, or_empty(meta.title)), "{author}"@, or_empty(meta.author)),
        "{date}"@,
        or_empty(meta.date),
    )
}

fn field_or_empty(o: &Option<String>) -> (r: &str)
    ensures
        r@ == or_empty(opt_v(*o)),
{
    proof { reveal_strlit(""); }
    match o {
        Some(s) => s.as_str(),
        None => "",
    }
}

/// Resolve `{title}`, `{author}` and `{date}` placeholders against metadata.
pub fn substitute_meta(template: &str, meta: &Meta) -> (r: String)
    ensures
        r@ == substituted(template@, meta@),
{
    proof {
        reveal_strlit("{title}");
        reveal_strlit("{author}");
        reveal_strlit("{date}");
    }
    let a = replace_str(template, "{title}", field_or_empty(&meta.title));
    let b = replace_str(a.as_str(), "{author}", field_or_empty(&meta.author));
    replace_str(b.as_str(), "{date}", field_or_empty(&meta.date))
}

} // verus!
