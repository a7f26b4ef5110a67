use md2pdf::ir::{Block, Inline};
use md2pdf::parser::dimension::{is_valid_dimension, parse_width_attr};
use md2pdf::parser::front::split_frontmatter;
use md2pdf::parser::parse;

#[test]
fn parses_frontmatter_and_body() {
    let md = "---\ntitle: My Doc\nauthor: Ada\ncustom: yes\n---\n\n# Hello\n\nbody text\n";
    let doc = parse(md);
    assert_eq!(doc.meta.title.as_deref(), Some("My Doc"));
    assert_eq!(doc.meta.author.as_deref(), Some("Ada"));
    assert_eq!(doc.meta.extra_value("custom").as_deref(), Some("yes"));
    assert!(matches!(doc.blocks.first(), Some(Block::Heading { level: 1, .. })));
}

#[test]
fn no_frontmatter_leaves_body_intact() {
    let doc = parse("# Title\n\ntext");
    assert_eq!(doc.meta.title, None);
    assert_eq!(doc.first_heading_text().as_deref(), Some("Title"));
}

#[test]
fn task_list_and_table_lower_to_ir() {
    let md = "- [x] done\n- [ ] todo\n\n| a | b |\n|---|---|\n| 1 | 2 |\n";
    let doc = parse(md);
    assert!(doc.blocks.iter().any(|b| matches!(b, Block::List { .. })));
    assert!(doc.blocks.iter().any(|b| matches!(b, Block::Table { .. })));
}

#[test]
fn footnote_is_inlined() {
    let doc = parse("text[^a]\n\n[^a]: the note\n");
    let has_footnote = doc.blocks.iter().any(|b| match b {
        Block::Paragraph(inlines) => inlines.iter().any(|i| matches!(i, Inline::Footnote(_))),
        _ => false,
    });
    assert!(has_footnote);
}

#[test]
fn dimensions_follow_float_syntax() {
    for ok in ["50%", "2.5cm", "10mm", "1in", "12pt", "1.5em", ".5%", "5.%", "+5%", "1e3pt", "-0%", "0%"] {
        assert!(is_valid_dimension(ok), "{ok} should be accepted");
    }
    for bad in ["%", "50", "50px", "inf%", "NaN%", "-1%", "1e400%", "5 %", "5%%", "e5%", "0x10pt", ""] {
        assert!(!is_valid_dimension(bad), "{bad} should be refused");
    }
}

#[test]
fn width_attribute_is_found_and_checked() {
    assert_eq!(parse_width_attr("width=40%").as_deref(), Some("40%"));
    assert_eq!(parse_width_attr("  class=x width=\"3cm\"  ").as_deref(), Some("3cm"));
    assert_eq!(parse_width_attr("width=evil) width=2in").as_deref(), Some("2in"));
    assert_eq!(parse_width_attr("height=3cm"), None);
    assert_eq!(parse_width_attr("width=3"), None);
}

#[test]
fn frontmatter_split_and_titles() {
    let (meta, body) = split_frontmatter("---\r\ntitle: \"T\"\nAuthors: A\nsubtitle: 'S'\nx: y\n---\n\n# H\n");
    assert_eq!(meta.title.as_deref(), Some("T"));
    assert_eq!(meta.author.as_deref(), Some("A"));
    assert_eq!(meta.subtitle.as_deref(), Some("S"));
    assert_eq!(meta.extra_value("x").as_deref(), Some("y"));
    assert_eq!(body, "# H\n");
    let (meta, body) = split_frontmatter("---\ntitle: never closed\n");
    assert!(meta.title.is_none());
    assert_eq!(body, "---\ntitle: never closed\n");
    let doc = parse("---\ntitle: Front\n---\n# Heading *one*\n");
    assert_eq!(doc.resolve_title(None).as_deref(), Some("Front"));
    assert_eq!(doc.resolve_title(Some("Flag")).as_deref(), Some("Flag"));
    assert_eq!(doc.first_heading_text().as_deref(), Some("Heading one"));
    let doc = parse("# Only heading\n");
    assert_eq!(doc.resolve_title(None).as_deref(), Some("Only heading"));
}
