//! The Markdown front-end: frontmatter, then the CommonMark tree, lowered to
//! the document model. comrak parses; its XML rendering of the tree is what
//! the lowering reads.

pub mod dimension;
pub mod front;
pub mod lower;
pub mod xml;

use vstd::prelude::*;
use crate::ir::{blocks_v, Block, BlockV, Document, DocumentV};
use crate::parser::front::{split_front, split_frontmatter};
use crate::parser::lower::{blks, collect_defs, defs_in, defs_view, lower_blocks};
use crate::parser::xml::{read_xml, xml_tree, XNode};

verus! {

/// The comrak extensions a parse switches on.
#[derive(Clone, Copy)]
pub struct Extensions {
    pub table: bool,
    pub strikethrough: bool,
    pub tasklist: bool,
    pub footnotes: bool,
    pub autolink: bool,
    pub superscript: bool,
    pub alerts: bool,
}

/// The extensions Markdown is read with: tables, strikethrough, task
/// lists, footnotes, autolinks and superscript, and GitHub alerts where
/// `alerts`.
pub open spec fn markdown_extensions(alerts: bool) -> Extensions {
    Extensions { table: true, strikethrough: true, tasklist: true, footnotes: true, autolink: true, superscript: true, alerts }
}

pub fn extensions(alerts: bool) -> (e: Extensions)
    ensures
        e == markdown_extensions(alerts),
{
    Extensions { table: true, strikethrough: true, tasklist: true, footnotes: true, autolink: true, superscript: true, alerts }
}

/// The XML rendering (`comrak::format_xml`) of `markdown` parsed by
/// `comrak::parse_document` as CommonMark with the extensions `ext` on.
pub uninterp spec fn commonmark_xml(markdown: Seq<char>, ext: Extensions) -> Seq<char>;

/// Parses `markdown` with `comrak::parse_document`, the extension options
/// set from `ext` field for field, and renders the tree with
/// `comrak::format_xml`. The contract claims only that the result is that
/// rendering, a function of the two arguments alone; writing XML into a
/// `String` cannot fail.
#[verifier::external_body]
pub(crate) fn commonmark_to_xml(markdown: &str, ext: Extensions) -> (xml: String)
    ensures
        xml@ == commonmark_xml(markdown@, ext),
{
    let arena = comrak::Arena::new();
    let mut o = comrak::Options::default();
    o.extension.table = ext.table;
    o.extension.strikethrough = ext.strikethrough;
    o.extension.tasklist = ext.tasklist;
    o.extension.footnotes = ext.footnotes;
    o.extension.autolink = ext.autolink;
    o.extension.superscript = ext.superscript;
    o.extension.alerts = ext.alerts;
    let root = comrak::parse_document(&arena, markdown, &o);
    let mut xml = String::new();
    let _ = comrak::format_xml(root, &o, &mut xml);
    xml
}

/// No footnote definition is being expanded.
pub open spec fn no_marks(n: nat) -> Seq<bool> {
    Seq::new(n, |i: int| false)
}

/// The blocks of the document whose tree the XML text `x` renders: the
/// root's children, lowered, with its footnote definitions at hand.
pub open spec fn xml_blocks(x: Seq<char>) -> Seq<BlockV> {
    match xml_tree(x) {
        Some(root) => blks(root.children, defs_in(root), no_marks(defs_in(root).len())),
        None => seq![],
    }
}

/// The document `parse` gives for `input`.
pub open spec fn parsed(input: Seq<char>) -> DocumentV {
    DocumentV { meta: split_front(input).0, blocks: xml_blocks(commonmark_xml(split_front(input).1, markdown_extensions(true))) }
}

/// The blocks of a document given as the XML rendering of its CommonMark
/// tree.
pub fn blocks_from_xml(xml: &str) -> (r: Vec<Block>)
    ensures
        blocks_v(r@) == xml_blocks(xml@),
{
    match read_xml(xml) {
        Some(root) => {
            let mut fd: Vec<(String, &Vec<XNode>)> = Vec::new();
            collect_defs(&root, &mut fd);
            assert(defs_view(Seq::<(String, &Vec<XNode>)>::empty()) + defs_in(root@) =~= defs_in(root@));
            let mut m: Vec<bool> = Vec::new();
            let mut i: usize = 0;
            while i < fd.len()
                invariant
                    i <= fd@.len(),
                    m@ == no_marks(i as nat),
                decreases fd.len() - i,
            {
                m.push(false);
                assert(m@ =~= no_marks((i + 1) as nat));
                i = i + 1;
            }
            assert(defs_view(fd@).len() == fd@.len());
            lower_blocks(&root.children, &fd, &m)
        },
        None => {
            let r: Vec<Block> = Vec::new();
            assert(blocks_v(r@) =~= Seq::<BlockV>::empty());
            r
        },
    }
}

/// Parse a Markdown string, with an optional leading frontmatter block,
/// into a document.
pub fn parse(input: &str) -> (doc: Document)
    ensures
        doc@ == parsed(input@),
{
    let (meta, body) = split_frontmatter(input);
    let xml = commonmark_to_xml(body.as_str(), extensions(true));
    Document { meta, blocks: blocks_from_xml(xml.as_str()) }
}

} // verus!
