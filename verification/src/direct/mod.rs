//! The single-pass pipeline: Markdown parsed by comrak (without alerts),
//! its tree turned straight into Typst markup, a themed preamble and title
//! block put in front, and the whole compiled to PDF.

pub mod convert;
pub mod theme;

use vstd::prelude::*;
use crate::direct::convert::{first_heading_text, heading_in, mk_body, render_body};
use crate::direct::theme::{assemble, assembled, Paper, Theme};
use crate::parser::commonmark_to_xml;
use crate::parser::{commonmark_xml, extensions, markdown_extensions};
use crate::parser::xml::{read_xml, xml_tree};
use crate::render::typst::{compile_typst, pdf_bytes};
use crate::text::{owned, starts_with};

verus! {

/// The document title: the `--title` value, else the first non-blank
/// heading, else the input's file stem.
pub open spec fn chosen_title(flag: Option<Seq<char>>, heading: Option<Seq<char>>, stem: Seq<char>) -> Seq<char> {
    match flag {
        Some(t) => t,
        None => match heading {
            Some(h) => h,
            None => stem,
        },
    }
}

/// The Typst source for `markdown`, read as CommonMark (alerts off).
pub open spec fn source_text(markdown: Seq<char>, title: Option<Seq<char>>, stem: Seq<char>, theme: Theme, paper: Paper, toc: bool) -> Seq<char> {
    match xml_tree(commonmark_xml(markdown, markdown_extensions(false))) {
        Some(root) => assembled(chosen_title(title, heading_in(root), stem), mk_body(root), theme, paper, toc),
        None => assembled(chosen_title(title, None, stem), seq![], theme, paper, toc),
    }
}

/// Build the Typst source for a Markdown document. `stem` is the input's
/// file stem, the title of last resort.
pub fn source(markdown: &str, title: Option<&str>, stem: &str, theme: Theme, paper: Paper, toc: bool) -> (s: String)
    ensures
        s@ == source_text(markdown@, match title { Some(t) => Some(t@), None => None }, stem@, theme, paper, toc),
{
    let xml = commonmark_to_xml(markdown, extensions(false));
    match read_xml(xml.as_str()) {
        Some(root) => {
            let t = match title {
                Some(t) => String::from_str(t),
                None => match first_heading_text(&root) {
                    Some(h) => h,
                    None => String::from_str(stem),
                },
            };
            let body = render_body(&root);
            assemble(t.as_str(), body.as_str(), theme, paper, toc)
        },
        None => {
            let t = match title {
                Some(t) => String::from_str(t),
                None => String::from_str(stem),
            };
            proof { reveal_strlit(""); }
            assemble(t.as_str(), "", theme, paper, toc)
        },
    }
}

/// Convert a Markdown document to PDF: the source that [`source`] builds,
/// compiled with images read from under `root`.
pub fn convert(markdown: &str, title: Option<&str>, stem: &str, theme: Theme, paper: Paper, toc: bool, root: &str) -> (r: Result<Vec<u8>, String>)
    ensures
        r matches Err(e) ==> starts_with(e@, "typst compilation failed: "@) || starts_with(e@, "could not generate PDF: "@),
{
    let src = source(markdown, title, stem, theme, paper, toc);
    let doc = match compile_typst(src, root, false, true) {
        Ok(d) => d,
        Err(e) => {
            let mut m = owned("typst compilation failed: ");
            m.append(e.as_str());
            proof { crate::text::lemma_starts_with_concat("typst compilation failed: "@, e@); }
            return Err(m);
        },
    };
    match pdf_bytes(&doc) {
        Ok(pdf) => Ok(pdf.into_bytes()),
        Err(e) => {
            let mut m = owned("could not generate PDF: ");
            m.append(e.as_str());
            proof { crate::text::lemma_starts_with_concat("could not generate PDF: "@, e@); }
            Err(m)
        },
    }
}

} // verus!
