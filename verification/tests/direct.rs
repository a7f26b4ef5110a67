use md2pdf::direct::convert::{first_heading_text, render_body};
use md2pdf::direct::source;
use md2pdf::direct::theme::{assemble, Paper, Theme};
use md2pdf::parser::xml::read_xml;

#[test]
fn body_renders_structure_as_typst_calls() {
    let s = source("# Hello\n\nSome *text* and `code`.\n", None, "doc", Theme::Default, Paper::A4, false);
    assert!(s.starts_with("#set page(paper: \"a4\", margin: (x: 2.2cm, y: 2.4cm), numbering: \"1\")\n"));
    assert!(s.contains("#heading(level: 1)[#\"Hello\"]\n\n"));
    assert!(s.contains("#\"Some \"#emph[#\"text\"]#\" and \"#raw(\"code\")#\".\"\n\n"));
    // The first heading titles the document.
    assert!(s.contains("fill: rgb(\"#13315c\"))[#\"Hello\"]"));
}

#[test]
fn title_falls_back_to_stem_and_flag_wins() {
    let s = source("plain text\n", None, "notes", Theme::Book, Paper::Letter, true);
    assert!(s.contains("paper: \"us-letter\""));
    assert!(s.contains("fill: rgb(\"#5a1e1e\"))[#\"notes\"]"));
    assert!(s.contains("#outline(title: [Contents], indent: auto)\n#v(1.2em)\n\n"));
    let s = source("# H\n", Some("Given"), "notes", Theme::Default, Paper::A4, false);
    assert!(s.contains("[#\"Given\"]"));
    assert!(!s.contains("#outline"));
}

#[test]
fn blank_title_has_no_title_block() {
    let s = assemble("   ", "BODY", Theme::Default, Paper::A4, false);
    assert!(!s.contains("#align(center)"));
    assert!(s.ends_with("\n\nBODY"));
}

#[test]
fn lists_tables_and_images() {
    let md = "- [x] done\n- [ ] todo\n\n1. one\n\n| a | b |\n|:-:|--:|\n| 1 | 2 |\n\n![r](https://e.com/r.png) ![l](img/l.png)\n";
    let s = source(md, None, "d", Theme::Default, Paper::A4, false);
    assert!(s.contains("#list(\n  [#\"\u{2611} \"#\"done\"],\n  [#\"\u{2610} \"#\"todo\"],\n)\n\n"));
    assert!(s.contains("#enum(\n  [#\"one\"],\n)\n\n"));
    assert!(s.contains("#table(\n  columns: 2,\n  align: (center, right, ),\n  stroke: 0.5pt + luma(190),\n  table.header([#\"a\"], [#\"b\"], ),\n  [#\"1\"], [#\"2\"], \n)\n\n"));
    // Remote images fall back to their alt text; local ones are referenced.
    assert!(s.contains("#\"r\"#\" \"#image(\"img/l.png\")"));
}

#[test]
fn footnotes_expand_and_cycles_end() {
    let s = source("a[^1]\n\n[^1]: b[^1]\n", None, "d", Theme::Default, Paper::A4, false);
    assert!(s.contains("#\"a\"#footnote[#\"b\"\n\n]\n\n"));
    let s = source("x[^z]\n", None, "d", Theme::Default, Paper::A4, false);
    assert!(s.contains("#\"x[^z]\""));
    assert!(!s.contains("#footnote"));
}

#[test]
fn quotes_are_escaped() {
    let s = source("say \"hi\" \\ now\n", None, "d", Theme::Default, Paper::A4, false);
    assert!(s.contains("#\"say \\\"hi\\\" \\\\ now\""));
}

#[test]
fn body_and_heading_from_a_tree() {
    let xml = "<?xml version=\"1.0\" encoding=\"UTF-8\"?>\n<!DOCTYPE document SYSTEM \"CommonMark.dtd\">\n<document xmlns=\"http://commonmark.org/xml/1.0\">\n  <heading level=\"2\">\n    <text xml:space=\"preserve\">  </text>\n  </heading>\n  <heading level=\"2\">\n    <text xml:space=\"preserve\">Intro </text>\n    <code xml:space=\"preserve\">x&lt;y</code>\n  </heading>\n  <thematic_break />\n</document>\n";
    let root = read_xml(xml).expect("tree");
    assert_eq!(first_heading_text(&root).as_deref(), Some("Intro x<y"));
    assert_eq!(
        render_body(&root),
        "#heading(level: 2)[#\"  \"]\n\n#heading(level: 2)[#\"Intro \"#raw(\"x<y\")]\n\n#line(length: 100%, stroke: 0.5pt + luma(180))\n#v(0.3em)\n\n"
    );
}
