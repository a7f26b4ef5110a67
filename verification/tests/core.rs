use md2pdf::convert;
use md2pdf::render::docx::lower::AssetFiles;
use md2pdf::render::{Layout, OutputFormat, Paper, RenderOptions};
use md2pdf::security::{inside_root, AssetDecision, AssetProbe, AssetProbes, SecurityPolicy};
use md2pdf::theme::Theme;

fn opts(root: &str) -> RenderOptions {
    RenderOptions {
        theme: Theme::Default,
        paper: Paper::A4,
        toc: false,
        title: None,
        layout: Layout::default(),
        security: SecurityPolicy::strict(root),
    }
}

fn no_files() -> AssetFiles {
    AssetFiles { entries: vec![] }
}

fn typst(md: &str, o: &RenderOptions) -> Vec<u8> {
    convert(md, o, OutputFormat::Typst, &AssetProbes::new(), &no_files()).unwrap().bytes
}

fn probe(absolute: bool, found: bool, canonical: &str, root: Option<&str>, size: Result<u64, String>) -> AssetProbe {
    AssetProbe { absolute, found, canonical: canonical.to_string(), canonical_root: root.map(|r| r.to_string()), size }
}

#[test]
fn security_denies_traversal_and_remote() {
    let policy = SecurityPolicy::strict("/tmp");
    // What the file system shows for each reference under /tmp.
    let remote = probe(false, false, "", Some("/tmp"), Err("not probed".into()));
    let traversal = probe(false, true, "/etc/passwd", Some("/tmp"), Ok(100));
    let absolute = probe(true, true, "/etc/passwd", Some("/tmp"), Ok(100));
    assert!(matches!(policy.resolve_image("https://evil.test/x.png", &remote), AssetDecision::Deny(_)));
    assert!(matches!(policy.resolve_image("../../etc/passwd", &traversal), AssetDecision::Deny(_)));
    assert!(matches!(policy.resolve_image("/etc/passwd", &absolute), AssetDecision::Deny(_)));
}

#[test]
fn security_fails_closed_when_root_cannot_be_canonicalized() {
    let policy = SecurityPolicy::strict("/no/such/root/md2pdf-test");
    let missing = probe(false, false, "", None, Err("No such file or directory".into()));
    assert!(matches!(policy.resolve_image("logo.png", &missing), AssetDecision::Deny(_)));
    // Even a file that exists is refused while the root itself is unresolved.
    let existing = probe(false, true, "/tmp/logo.png", None, Ok(10));
    match policy.resolve_image("../logo.png", &existing) {
        AssetDecision::Deny(r) => assert_eq!(r, "document root cannot be resolved, image denied: ../logo.png"),
        AssetDecision::Allow(_) => panic!("an unresolved root must fail closed"),
    }
}

#[test]
fn loose_list_item_paragraphs_are_separated() {
    let md = "- first paragraph\n\n  second paragraph\n";
    let src = String::from_utf8(typst(md, &opts("."))).unwrap();
    assert!(src.contains("#parbreak()"), "multiple paragraphs in one list item must not run together: {src}");
}

#[test]
fn typst_source_render_is_deterministic() {
    let md = "# Title\n\nHello **world**.";
    let a = typst(md, &opts("."));
    let b = typst(md, &opts("."));
    assert_eq!(a, b, "Typst lowering must be reproducible");
}

#[test]
fn allowed_image_is_embedded_with_width() {
    let mut probes = AssetProbes::new();
    probes.record("pic.png".into(), probe(false, true, "/tmp/x.png", Some("/tmp"), Ok(10)));
    let out = convert("![a pic](pic.png){width=50%}\n", &opts("."), OutputFormat::Typst, &probes, &no_files()).unwrap();
    let src = String::from_utf8(out.bytes).unwrap();
    assert!(src.contains("#image(\"pic.png\", width: 50%"), "{src}");
    assert!(out.diagnostics.is_empty());
}

#[test]
fn oversized_image_is_denied() {
    let mut policy = SecurityPolicy::strict(".");
    policy.max_image_bytes = 5;
    let big = probe(false, true, "/tmp/big.png", Some("/tmp"), Ok(6));
    assert!(matches!(policy.resolve_image("big.png", &big), AssetDecision::Deny(_)));
    let small = probe(false, true, "/tmp/big.png", Some("/tmp"), Ok(5));
    assert!(matches!(policy.resolve_image("big.png", &small), AssetDecision::Allow(p) if p == "big.png"));
}

#[test]
fn allowing_remote_changes_nothing() {
    let mut policy = SecurityPolicy::strict("/tmp");
    policy.allow_remote = true;
    let remote = probe(false, true, "/tmp/x.png", Some("/tmp"), Ok(10));
    match policy.resolve_image("  HTTPS://evil.test/x.png", &remote) {
        AssetDecision::Deny(r) => assert_eq!(r, "remote image not loaded (remote resources are disabled):   HTTPS://evil.test/x.png"),
        AssetDecision::Allow(_) => panic!("remote references are never allowed"),
    }
    let local = probe(false, true, "/tmp/x.png", Some("/tmp"), Ok(10));
    assert!(matches!(policy.resolve_image("img/a.png", &local), AssetDecision::Allow(p) if p == "img/a.png"));
}

#[test]
fn image_sources_in_document_order() {
    let md = "![a](a.png)\n\n> - ![b](b.png) x[^n]\n\n| ![c](c.png) |\n|---|\n\n[^n]: ![d](d.png)\n";
    let doc = md2pdf::parser::parse(md);
    assert_eq!(md2pdf::assets::image_sources(&doc), vec!["a.png", "b.png", "d.png", "c.png"]);
}

#[test]
fn containment_is_by_whole_path_components() {
    assert!(inside_root("/tmp", Some("/tmp")));
    assert!(inside_root("/tmp/a.png", Some("/tmp")));
    assert!(inside_root("/tmp/a.png", Some("/tmp/")));
    assert!(!inside_root("/tmpx/a.png", Some("/tmp")));
    assert!(!inside_root("/etc/passwd", Some("/tmp")));
    assert!(!inside_root("/tmp/a.png", None));
}
