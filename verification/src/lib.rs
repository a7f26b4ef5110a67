//! Markdown documentation engine: a renderer-agnostic document model, the
//! Markdown front-end that builds it, and the Typst, HTML and DOCX back-ends.

pub mod ir;
pub mod text;
pub mod theme;
pub mod security;
pub mod render;
pub mod config;
pub mod parser;
pub mod cli;
pub mod direct;
pub mod assets;

use vstd::prelude::*;
use crate::parser::{parse, parsed};
use crate::render::{OutputFormat, RenderOptions, Rendered, Renderer};
use crate::render::backend::{for_format, render_result};
use crate::render::docx::lower::AssetFiles;
use crate::security::AssetProbes;

verus! {

/// The pinned Typst engine version.
pub const ENGINE_VERSION: &'static str = "typst 0.14.2";

/// Parse `markdown` and render it in one call. `probes` are the facts about
/// the images it references, `files` the bytes read for the allowed ones.
pub fn convert(markdown: &str, opts: &RenderOptions, format: OutputFormat, probes: &AssetProbes, files: &AssetFiles) -> (r: Result<Rendered, String>)
    ensures
        render_result(format, parsed(markdown@), opts@, probes.entries@, files.entries@, r),
{
    let doc = parse(markdown);
    for_format(format).render(&doc, opts, probes, files)
}

} // verus!
