//! The experimental DOCX back-end: the document lowered to paragraphs,
//! tables and page furniture, then written with `docx-rs`.

pub mod model;
pub mod lower;
pub mod ids;
pub mod writer;

use vstd::prelude::*;
use crate::ir::Document;
use crate::render::{messages, Diagnostic, Handover, Renderer, OutputFormat, RenderOptions, Rendered};
use crate::render::docx::ids::{id_count, normalize_para_ids, para_id_count, renumbered};
use crate::render::docx::lower::{lower, AssetFiles};
use crate::render::docx::model::{d_body, docx_model, DocxEnv};
use crate::render::docx::writer::{build_docx, docx_build, docx_parts, pack, package_parts, DocV, put_document, put_footers, put_footnotes, put_headers, take_document, take_footers, take_footnotes, take_headers};
use crate::render::typst::env_of;
use crate::security::AssetProbes;
use crate::text::owned;
use crate::theme::spec_of;

verus! {

/// Renumber the paragraph ids of one part, where the numbers still fit in
/// eight hex digits; `false` where they would not.
pub fn renumber_part(xml: &mut Vec<u8>, next: &mut u64) -> (ok: bool)
    ensures
        ok == (*old(next) + id_count(old(xml)@, 0) <= 0x1_0000_0000),
        ok ==> final(xml)@ == renumbered(old(xml)@, 0, *old(next) as nat)
            && *final(next) == *old(next) + id_count(old(xml)@, 0),
        !ok ==> final(xml)@ == old(xml)@ && *final(next) == *old(next),
{
    let n = para_id_count(xml);
    if n > 0x1_0000_0000 || *next > 0x1_0000_0000 - n {
        return false;
    }
    normalize_para_ids(xml, next);
    true
}

/// The bytes of each part.
pub open spec fn parts_v(parts: Seq<Vec<u8>>) -> Seq<Seq<u8>> {
    parts.map_values(|p: Vec<u8>| p@)
}

/// One part handled after the parts before it left `st` (parts done, next
/// number, all fitted so far): renumbered while every part so far fitted and
/// this one fits too; otherwise kept as it is, and numbering stops.
pub open spec fn renum_step(st: (Seq<Seq<u8>>, nat, bool), p: Seq<u8>) -> (Seq<Seq<u8>>, nat, bool) {
    if st.2 && st.1 + id_count(p, 0) <= 0x1_0000_0000 {
        (st.0.push(renumbered(p, 0, st.1)), st.1 + id_count(p, 0), true)
    } else {
        (st.0.push(p), st.1, false)
    }
}

/// The parts, the next number and whether every part fitted, after handling
/// `parts` in order from number `next`.
pub open spec fn renum_parts(parts: Seq<Seq<u8>>, next: nat) -> (Seq<Seq<u8>>, nat, bool)
    decreases parts.len(),
{
    if parts.len() == 0 {
        (seq![], next, true)
    } else {
        renum_step(renum_parts(parts.drop_last(), next), parts.last())
    }
}

/// Renumber the paragraph ids of several parts in turn, continuing the
/// numbering from one part to the next; once a part's numbers would not fit
/// in eight hex digits, it and the parts after it are left as they are.
pub fn renumber_all(parts: &mut Vec<Vec<u8>>, next: &mut u64) -> (ok: bool)
    ensures
        (parts_v(final(parts)@), *final(next) as nat, ok) == renum_parts(parts_v(old(parts)@), *old(next) as nat),
{
    let ghost orig = parts_v(parts@);
    let ghost n0 = *next as nat;
    let mut out: Vec<Vec<u8>> = Vec::new();
    let mut ok = true;
    let mut i: usize = 0;
    let n = parts.len();
    assert(orig.take(0) =~= Seq::<Seq<u8>>::empty());
    assert(parts_v(out@) =~= Seq::<Seq<u8>>::empty());
    assert(parts_v(parts@) =~= orig.skip(0));
    while i < n
        invariant
            n == orig.len(),
            i <= n,
            parts@.len() == n - i,
            parts_v(parts@) == orig.skip(i as int),
            (parts_v(out@), *next as nat, ok) == renum_parts(orig.take(i as int), n0),
        decreases n - i,
    {
        let ghost before = parts_v(parts@);
        let ghost st = (parts_v(out@), *next as nat, ok);
        let mut part = parts.remove(0);
        assert(part@ == orig[i as int]) by {
            assert(before[0] == orig.skip(i as int)[0]);
        }
        assert(parts_v(parts@) =~= orig.skip(i + 1)) by {
            assert forall|j: int| 0 <= j < parts_v(parts@).len() implies parts_v(parts@)[j] == orig.skip(i + 1)[j] by {
                assert(parts_v(parts@)[j] == before[j + 1]);
            }
        }
        if ok {
            ok = renumber_part(&mut part, next);
        }
        let ghost pv = part@;
        out.push(part);
        assert(orig.take(i + 1).drop_last() =~= orig.take(i as int));
        assert(parts_v(out@) =~= st.0.push(pv));
        assert((parts_v(out@), *next as nat, ok) == renum_step(st, orig[i as int]));
        i = i + 1;
    }
    assert(orig.take(n as int) =~= orig);
    *parts = out;
    ok
}

proof fn lemma_renum_len(parts: Seq<Seq<u8>>, next: nat)
    ensures
        renum_parts(parts, next).0.len() == parts.len(),
    decreases parts.len(),
{
    if parts.len() > 0 {
        lemma_renum_len(parts.drop_last(), next);
    }
}

/// The parts of a written package whose paragraph ids are numbered: the
/// main document, the headers, the footers and the footnotes.
pub struct PackageXml {
    pub document: Vec<u8>,
    pub headers: Vec<Vec<u8>>,
    pub footers: Vec<Vec<u8>>,
    pub footnotes: Vec<u8>,
}

/// The numbered parts of a package, in numbering order.
pub open spec fn package_seq(p: PackageXml) -> Seq<Seq<u8>> {
    seq![p.document@] + parts_v(p.headers@) + parts_v(p.footers@) + seq![p.footnotes@]
}

/// Renumber the paragraph ids of a package from 1 over the main document,
/// the headers, the footers and the footnotes in turn; `false` where the
/// numbers would not all fit in eight hex digits, the parts from the first
/// that would not fit then left as they are.
pub fn renumber_package(p: &mut PackageXml) -> (ok: bool)
    ensures
        final(p).headers@.len() == old(p).headers@.len(),
        final(p).footers@.len() == old(p).footers@.len(),
        package_seq(*final(p)) == renum_parts(package_seq(*old(p)), 1).0,
        ok == renum_parts(package_seq(*old(p)), 1).2,
{
    let ghost before = package_seq(*p);
    let h = p.headers.len();
    let ghost f = p.footers@.len();
    let mut all: Vec<Vec<u8>> = Vec::new();
    let mut doc: Vec<u8> = Vec::new();
    std::mem::swap(&mut doc, &mut p.document);
    all.push(doc);
    all.append(&mut p.headers);
    all.append(&mut p.footers);
    let mut notes: Vec<u8> = Vec::new();
    std::mem::swap(&mut notes, &mut p.footnotes);
    all.push(notes);
    assert(parts_v(all@) =~= before);
    let mut next: u64 = 1;
    let ok = renumber_all(&mut all, &mut next);
    let ghost after = renum_parts(before, 1).0;
    proof { lemma_renum_len(before, 1); }
    assert(parts_v(all@) == after);
    assert(all@.len() == h + f + 2);
    let ghost whole = all@;
    match all.pop() {
        Some(n) => p.footnotes = n,
        None => {},
    }
    p.document = all.remove(0);
    let rest = all.split_off(h);
    p.headers = all;
    p.footers = rest;
    assert(p.footnotes@ == after[h + f + 1]);
    assert(p.document@ == after[0]);
    assert(parts_v(p.headers@) =~= after.subrange(1, h + 1));
    assert(parts_v(p.footers@) =~= after.subrange(h + 1, h + f + 1));
    assert(package_seq(*p) =~= after);
    ok
}

/// A DOCX hand-over: `docx-rs` was handed `document`, and the numbered
/// parts it wrote went into the package renumbered from 1, every number
/// fitting in eight hex digits.
pub open spec fn docx_handover(h: Handover, document: DocV) -> bool {
    match h {
        Handover::Docx { document: d, written, packed } => d == document && renum_parts(written, 1).2 && packed == renum_parts(written, 1).0,
        _ => false,
    }
}

/// The refusal when the paragraphs of a document cannot all be numbered in
/// eight hex digits.
pub const TOO_MANY_PARAGRAPHS: &'static str = "could not pack docx: too many paragraphs to number";

/// Renders a document to a `.docx` file (experimental).
pub struct DocxRenderer;

impl Renderer for DocxRenderer {
    fn format(&self) -> (f: OutputFormat)
        ensures
            f == OutputFormat::Docx,
    {
        OutputFormat::Docx
    }

    /// The document as an OOXML package: `docx-rs` is handed exactly what
    /// `build_docx` states for the model `lower` gives, then the paragraph
    /// ids of the written parts are renumbered by `renumber_package`. Images
    /// are embedded from `files`, the bytes read for them. It fails where
    /// the ids would not fit in eight hex digits, or where packing fails.
    fn render(&self, doc: &Document, opts: &RenderOptions, probes: &AssetProbes, files: &AssetFiles) -> (r: Result<Rendered, String>)
        ensures
            r matches Ok(out) ==> messages(out.diagnostics@) == d_body(
                doc@,
                opts@,
                DocxEnv { env: env_of(&opts.security, probes), files: files.entries@, link_color: spec_of(opts@.theme).link_color },
            ).diags,
            r matches Ok(out) ==> docx_handover(out.handed@, docx_parts(docx_model(
                doc@,
                opts@,
                DocxEnv { env: env_of(&opts.security, probes), files: files.entries@, link_color: spec_of(opts@.theme).link_color },
            ))),
            r matches Err(e) ==> e@ == TOO_MANY_PARAGRAPHS@ || crate::text::starts_with(e@, "could not pack docx: "@),
    {
        let mut diagnostics: Vec<Diagnostic> = Vec::new();
        let model = lower(doc, opts, probes, files, &mut diagnostics);
        assert(messages(Seq::<Diagnostic>::empty()) =~= Seq::<Seq<char>>::empty());
        let mut xml = docx_build(build_docx(&model));
        let document = take_document(&mut xml);
        let headers = take_headers(&mut xml);
        let footers = take_footers(&mut xml);
        let footnotes = take_footnotes(&mut xml);
        let mut parts = PackageXml { document, headers, footers, footnotes };
        assert(package_seq(parts) =~= package_parts(xml.written()));
        let ok = renumber_package(&mut parts);
        let ghost renumbered = package_seq(parts);
        put_document(&mut xml, parts.document);
        put_headers(&mut xml, parts.headers);
        put_footers(&mut xml, parts.footers);
        put_footnotes(&mut xml, parts.footnotes);
        if !ok {
            return Err(owned(TOO_MANY_PARAGRAPHS));
        }
        assert(package_parts(xml.parts()) =~= renumbered);
        match pack(xml) {
            Ok(file) => {
                let ghost handed = Handover::Docx {
                    document: file.made_from(),
                    written: package_parts(file.written()),
                    packed: package_parts(file.packed()),
                };
                Ok(Rendered { bytes: file.into_bytes(), diagnostics, handed: Ghost(handed) })
            },
            Err(e) => {
                let mut m = owned("could not pack docx: ");
                m.append(e.as_str());
                proof { crate::text::lemma_starts_with_concat("could not pack docx: "@, e@); }
                Err(m)
            },
        }
    }
}

} // verus!
