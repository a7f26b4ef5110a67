use std::io::Read;

use md2pdf::convert;
use md2pdf::render::docx::lower::{picture, AssetFiles};
use md2pdf::render::docx::{renumber_all, renumber_package, renumber_part, PackageXml};
use md2pdf::render::{Layout, OutputFormat, Paper, RenderOptions, Rendered};
use md2pdf::security::{AssetProbe, AssetProbes, SecurityPolicy};
use md2pdf::theme::Theme;

fn opts() -> RenderOptions {
    RenderOptions {
        theme: Theme::Default,
        paper: Paper::A4,
        toc: false,
        title: None,
        layout: Layout::default(),
        security: SecurityPolicy::strict("."),
    }
}

fn docx(md: &str, o: &RenderOptions) -> Rendered {
    convert(md, o, OutputFormat::Docx, &AssetProbes::new(), &AssetFiles { entries: vec![] }).unwrap()
}

fn zip_entry(bytes: &[u8], name: &str) -> String {
    let mut archive = zip::ZipArchive::new(std::io::Cursor::new(bytes)).expect("valid zip");
    let mut file = archive.by_name(name).expect("entry present");
    let mut s = String::new();
    file.read_to_string(&mut s).unwrap();
    s
}

#[test]
fn renders_valid_docx_package() {
    let bytes = docx("---\ntitle: Spec\nauthor: Ada\n---\n\n# Intro\n\nHello **world** and `code`.\n", &opts()).bytes;
    assert_eq!(&bytes[..2], b"PK", "docx must be a zip");
    let doc = zip_entry(&bytes, "word/document.xml");
    assert!(doc.contains("Spec"), "title block: {doc}");
    assert!(doc.contains("Intro"), "heading text");
    assert!(doc.contains("Heading1"), "heading style");
    assert!(doc.contains("<w:b />"), "bold run for **world**");
    assert!(doc.contains("CodeChar"), "inline code style");
}

#[test]
fn docx_is_deterministic() {
    let md = "# T\n\n- a\n- b\n\n| x | y |\n|---|---|\n| 1 | 2 |\n\ntext[^a]\n\n[^a]: note\n";
    let a = docx(md, &opts()).bytes;
    let b = docx(md, &opts()).bytes;
    assert_eq!(a, b, "docx output must be byte-reproducible");
}

#[test]
fn docx_security_posture_matches() {
    let out = docx("<div>raw</div>\n\n![alt](https://evil.test/x.png)\n", &opts());
    let doc = zip_entry(&out.bytes, "word/document.xml");
    assert!(!doc.contains("<div>"), "raw HTML dropped");
    assert!(!doc.contains("evil.test"), "remote image denied");
    assert!(out.diagnostics.len() >= 2, "both drops reported");
}

#[test]
fn docx_structures_render() {
    let md = "> [!NOTE]\n> Callout.\n\nTerm\n: Details.\n\n1. one\n2. two\n\n> quoted\n";
    let bytes = docx(md, &opts()).bytes;
    let doc = zip_entry(&bytes, "word/document.xml");
    assert!(doc.contains("Note"), "admonition title");
    assert!(doc.contains("Term") && doc.contains("Details."), "definition list");
    assert!(doc.contains("w:numId"), "numbered list");
    assert!(doc.contains("Quote"), "blockquote style");
}

#[test]
fn docx_footnote_and_links() {
    let md = "See [docs](https://example.com)[^a]\n\n[^a]: the note body\n";
    let bytes = docx(md, &opts()).bytes;
    let doc = zip_entry(&bytes, "word/document.xml");
    assert!(doc.contains("footnoteReference"), "footnote ref: {doc}");
    let notes = zip_entry(&bytes, "word/footnotes.xml");
    assert!(notes.contains("the note body"), "footnote body: {notes}");
    let rels = zip_entry(&bytes, "word/_rels/document.xml.rels");
    assert!(rels.contains("https://example.com"), "hyperlink rel");
}

#[test]
fn docx_header_footer_and_toc() {
    let mut o = opts();
    o.toc = true;
    o.layout.header = Some("{title} — internal".into());
    o.layout.footer = Some("by {author}".into());
    let bytes = docx("---\ntitle: Spec\nauthor: Ada\n---\n\n# H\n\nbody\n", &o).bytes;
    let header = zip_entry(&bytes, "word/header1.xml");
    assert!(header.contains("Spec — internal"), "header placeholders");
    let footer = zip_entry(&bytes, "word/footer1.xml");
    assert!(footer.contains("by Ada"), "footer placeholders");
    let doc = zip_entry(&bytes, "word/document.xml");
    assert!(doc.to_lowercase().contains("toc"), "table of contents field");
}

#[test]
fn renumbering_erases_given_ids() {
    let mut a = b"<w:p w14:paraId=\"1A2B3C4D\"/><w:p w14:paraId=\"00000007\"/>".to_vec();
    let mut b = b"<w:p w14:paraId=\"DEADBEEF\"/><w:p w14:paraId=\"0BADF00D\"/>".to_vec();
    let (mut na, mut nb) = (1u64, 1u64);
    md2pdf::render::docx::ids::normalize_para_ids(&mut a, &mut na);
    md2pdf::render::docx::ids::normalize_para_ids(&mut b, &mut nb);
    assert_eq!(a, b);
    assert_eq!(a, b"<w:p w14:paraId=\"00000001\"/><w:p w14:paraId=\"00000002\"/>".to_vec());
    assert_eq!(na, 3);
    assert_eq!(md2pdf::render::docx::ids::para_id_count(&a), 2);
}

#[test]
fn renumbering_parts_in_turn_and_refusing_overflow() {
    let id = |v: &str| format!("<w:p w14:paraId=\"{v}\"/>").into_bytes();
    let mut parts = vec![id("AAAAAAAA"), id("BBBBBBBB")];
    let mut next = 5u64;
    assert!(renumber_all(&mut parts, &mut next));
    assert_eq!(parts, vec![id("00000005"), id("00000006")]);
    assert_eq!(next, 7);
    let mut part = id("CCCCCCCC");
    let mut next = 0x1_0000_0000u64;
    assert!(!renumber_part(&mut part, &mut next));
    assert_eq!(part, id("CCCCCCCC"));
    assert_eq!(next, 0x1_0000_0000);
    let mut parts = vec![id("AAAAAAAA"), id("BBBBBBBB")];
    let mut next = 0xFFFF_FFFFu64;
    assert!(!renumber_all(&mut parts, &mut next));
    assert_eq!(parts, vec![id("ffffffff"), id("BBBBBBBB")]);
    assert_eq!(next, 0x1_0000_0000);
}

#[test]
fn undecodable_image_is_reported_not_embedded() {
    let mut probes = AssetProbes::new();
    probes.record(
        "fake.png".into(),
        AssetProbe { absolute: false, found: true, canonical: "/tmp/fake.png".into(), canonical_root: Some("/tmp".into()), size: Ok(9) },
    );
    let files = AssetFiles { entries: vec![("fake.png".to_string(), Ok(b"not a png".to_vec()))] };
    let mut o = opts();
    o.security = SecurityPolicy::strict("/tmp");
    let out = convert("![the alt](fake.png)\n", &o, OutputFormat::Docx, &probes, &files).unwrap();
    assert_eq!(out.diagnostics.len(), 1);
    assert!(out.diagnostics[0].message.starts_with("cannot read image fake.png: "), "{:?}", out.diagnostics[0].message);
    let doc = zip_entry(&out.bytes, "word/document.xml");
    assert!(doc.contains("the alt"), "alt text stands in for the picture");
    assert!(!doc.contains("<w:drawing>"), "no picture embedded");
}

#[test]
fn picture_keeps_png_and_converts_other_formats() {
    // A 1x1 greyscale PNG.
    let png: Vec<u8> = vec![
        137, 80, 78, 71, 13, 10, 26, 10, 0, 0, 0, 13, 73, 72, 68, 82, 0, 0, 0, 1, 0, 0, 0, 1, 8, 0, 0, 0, 0, 58, 126, 155,
        85, 0, 0, 0, 10, 73, 68, 65, 84, 120, 156, 99, 96, 0, 0, 0, 2, 0, 1, 72, 175, 164, 113, 0, 0, 0, 0, 73, 69, 78,
        68, 174, 66, 96, 130,
    ];
    match picture(&png) {
        Ok(p) => {
            assert_eq!(p.png(), &png, "a PNG is embedded as it is");
            assert_eq!(p.size(), (1, 1));
        }
        Err(e) => panic!("a valid PNG must be accepted: {e}"),
    }
    // A 1x1 BMP is converted to PNG.
    let bmp: Vec<u8> = vec![
        66, 77, 58, 0, 0, 0, 0, 0, 0, 0, 54, 0, 0, 0, 40, 0, 0, 0, 1, 0, 0, 0, 1, 0, 0, 0, 1, 0, 24, 0, 0, 0, 0, 0, 4, 0,
        0, 0, 19, 11, 0, 0, 19, 11, 0, 0, 0, 0, 0, 0, 0, 0, 0, 0, 0, 0, 255, 0,
    ];
    match picture(&bmp) {
        Ok(p) => {
            assert_eq!(&p.png()[..8], &[137, 80, 78, 71, 13, 10, 26, 10]);
            assert_eq!(p.size(), (1, 1));
        }
        Err(e) => panic!("a BMP must be converted: {e}"),
    }
    // A PNG header announcing a picture wider than a docx can hold.
    let wide: Vec<u8> = vec![137, 80, 78, 71, 13, 10, 26, 10, 0, 0, 0, 13, 73, 72, 68, 82, 0, 7, 161, 32, 0, 0, 0, 1, 8, 0, 0, 0, 0, 222, 138, 127, 188, 0, 0, 1, 250, 73, 68, 65, 84, 120, 218, 237, 193, 1, 1, 0, 0, 0, 130, 32, 255, 175, 110, 72, 64, 1, 0, 0, 0, 0, 0, 0, 0, 0, 0, 0, 0, 0, 0, 0, 0, 0, 0, 0, 0, 0, 0, 0, 0, 0, 0, 0, 0, 0, 0, 0, 0, 0, 0, 0, 0, 0, 0, 0, 0, 0, 0, 0, 0, 0, 0, 0, 0, 0, 0, 0, 0, 0, 0, 0, 0, 0, 0, 0, 0, 0, 0, 0, 0, 0, 0, 0, 0, 0, 0, 0, 0, 0, 0, 0, 0, 0, 0, 0, 0, 0, 0, 0, 0, 0, 0, 0, 0, 0, 0, 0, 0, 0, 0, 0, 0, 0, 0, 0, 0, 0, 0, 0, 0, 0, 0, 0, 0, 0, 0, 0, 0, 0, 0, 0, 0, 0, 0, 0, 0, 0, 0, 0, 0, 0, 0, 0, 0, 0, 0, 0, 0, 0, 0, 0, 0, 0, 0, 0, 0, 0, 0, 0, 0, 0, 0, 0, 0, 0, 0, 0, 0, 0, 0, 0, 0, 0, 0, 0, 0, 0, 0, 0, 0, 0, 0, 0, 0, 0, 0, 0, 0, 0, 0, 0, 0, 0, 0, 0, 0, 0, 0, 0, 0, 0, 0, 0, 0, 0, 0, 0, 0, 0, 0, 0, 0, 0, 0, 0, 0, 0, 0, 0, 0, 0, 0, 0, 0, 0, 0, 0, 0, 0, 0, 0, 0, 0, 0, 0, 0, 0, 0, 0, 0, 0, 0, 0, 0, 0, 0, 0, 0, 0, 0, 0, 0, 0, 0, 0, 0, 0, 0, 0, 0, 0, 0, 0, 0, 0, 0, 0, 0, 0, 0, 0, 0, 0, 0, 0, 0, 0, 0, 0, 0, 0, 0, 0, 0, 0, 0, 0, 0, 0, 0, 0, 0, 0, 0, 0, 0, 0, 0, 0, 0, 0, 0, 0, 0, 0, 0, 0, 0, 0, 0, 0, 0, 0, 0, 0, 0, 0, 0, 0, 0, 0, 0, 0, 0, 0, 0, 0, 0, 0, 0, 0, 0, 0, 0, 0, 0, 0, 0, 0, 0, 0, 0, 0, 0, 0, 0, 0, 0, 0, 0, 0, 0, 0, 0, 0, 0, 0, 0, 0, 0, 0, 0, 0, 0, 0, 0, 0, 0, 0, 0, 0, 0, 0, 0, 0, 0, 0, 0, 0, 0, 0, 0, 0, 0, 0, 0, 0, 0, 0, 0, 0, 0, 0, 0, 0, 0, 0, 0, 0, 0, 0, 0, 0, 0, 0, 0, 0, 0, 0, 0, 0, 0, 0, 0, 0, 0, 0, 0, 0, 0, 0, 0, 0, 0, 0, 0, 0, 0, 0, 0, 0, 0, 0, 0, 0, 0, 0, 0, 0, 0, 0, 0, 0, 0, 0, 0, 0, 0, 0, 0, 0, 0, 0, 0, 0, 0, 0, 0, 0, 0, 0, 0, 0, 0, 0, 0, 0, 0, 0, 0, 0, 0, 0, 0, 0, 0, 0, 0, 0, 0, 0, 0, 0, 0, 0, 0, 0, 0, 0, 0, 0, 0, 0, 0, 0, 0, 0, 0, 0, 0, 112, 109, 161, 138, 0, 1, 12, 44, 106, 33, 0, 0, 0, 0, 73, 69, 78, 68, 174, 66, 96, 130];
    match picture(&wide) {
        Ok(_) => panic!("an oversized picture must be refused"),
        Err(e) => assert_eq!(e, "picture too large to embed"),
    }
    assert!(picture(&b"GIF89a".to_vec()).is_err(), "a truncated file is refused");
    assert!(picture(&vec![137, 80, 78, 71, 13, 10, 26, 10, 0]).is_err(), "a truncated PNG is refused");
}

#[test]
fn package_parts_are_numbered_in_turn() {
    let id = |v: &str| format!("<w:p w14:paraId=\"{v}\"/>").into_bytes();
    let mut p = PackageXml {
        document: [id("AAAAAAAA"), id("BBBBBBBB")].concat(),
        headers: vec![id("CCCCCCCC")],
        footers: vec![id("DDDDDDDD"), id("EEEEEEEE")],
        footnotes: id("FFFFFFFF"),
    };
    assert!(renumber_package(&mut p));
    assert_eq!(p.document, [id("00000001"), id("00000002")].concat());
    assert_eq!(p.headers, vec![id("00000003")]);
    assert_eq!(p.footers, vec![id("00000004"), id("00000005")]);
    assert_eq!(p.footnotes, id("00000006"));
}
