use md2pdf::cli::args::{ConvertArgs, FormatArg, PaperArg, ThemeArg};
use md2pdf::cli::paths::{doc_root_of, join_path, mirrored_output, with_extension};
use md2pdf::cli::convert::{
    batch_found, check_input_size, classify_entry, config_theme_file, dir_extension, dir_summary, layered_options, output_format,
    reads_stdin, run, theme_request, to_stdout, Entry, Route, ThemeRequest,
};
use md2pdf::cli::validate::{check, report, strict_gate, Stats};
use md2pdf::config::{Config, DocumentConfig, LayoutConfig, SecurityConfig};
use md2pdf::parser::parse;
use md2pdf::render::{OutputFormat, Paper};
use md2pdf::security::{AssetProbes, SecurityPolicy};
use md2pdf::theme::Theme;

fn args() -> ConvertArgs {
    ConvertArgs {
        input: Some("doc.md".to_string()),
        output: None,
        format: None,
        theme: None,
        paper: None,
        toc: false,
        no_toc: false,
        title: None,
        header: None,
        footer: None,
        page_numbers: false,
        no_page_numbers: false,
        config: None,
    }
}

fn config_toc(toc: bool) -> Config {
    Config {
        document: Some(DocumentConfig { theme: Some("book".to_string()), paper: Some("letter".to_string()), toc: Some(toc), title: None }),
        security: Some(SecurityConfig { max_input_bytes: Some(8192), max_image_bytes: None }),
        layout: Some(LayoutConfig { header: Some("Internal".to_string()), footer: None, page_numbers: Some(false) }),
    }
}

#[test]
fn run_routes_by_input() {
    let mut a = args();
    a.input = None;
    assert_eq!(run(&a, false).unwrap_err(), "no input file given (try `md2pdf <file.md>` or `md2pdf --help`)");
    a.input = Some("docs".to_string());
    assert!(matches!(run(&a, true), Ok(Route::Directory(d)) if d == "docs"));
    assert!(matches!(run(&a, false), Ok(Route::Single(f)) if f == "docs"));
    a.input = Some("-".to_string());
    assert!(matches!(run(&a, true), Ok(Route::Single(f)) if f == "-"));
    assert!(reads_stdin("-"));
    assert!(!reads_stdin("doc.md"));
}

#[test]
fn defaults_without_config_or_flags() {
    let o = layered_options("docs", &None, None, &args(), None);
    assert_eq!(o.theme, Theme::Default);
    assert_eq!(o.paper, Paper::A4);
    assert!(!o.toc);
    assert!(o.title.is_none());
    assert!(o.layout.page_numbers);
    assert!(o.layout.header.is_none());
    assert_eq!(o.security.root, "docs");
    assert_eq!(o.security.max_input_bytes, 16 * 1024 * 1024);
    assert_eq!(o.security.max_image_bytes, 32 * 1024 * 1024);
}

#[test]
fn config_values_survive_without_flags() {
    let o = layered_options(".", &Some(config_toc(true)), None, &args(), None);
    assert!(o.toc, "config toc = true must survive a plain run");
    assert_eq!(o.theme, Theme::Book);
    assert_eq!(o.paper, Paper::Letter);
    assert_eq!(o.layout.header.as_deref(), Some("Internal"));
    assert!(!o.layout.page_numbers);
    assert_eq!(o.security.max_input_bytes, 8192);
}

#[test]
fn flags_override_config() {
    let mut a = args();
    a.no_toc = true;
    a.paper = Some(PaperArg::Legal);
    a.title = Some("T".to_string());
    a.footer = Some("by {author}".to_string());
    a.page_numbers = true;
    let o = layered_options(".", &Some(config_toc(true)), None, &a, Some(Theme::Default));
    assert!(!o.toc, "--no-toc must override config toc = true");
    assert_eq!(o.paper, Paper::Legal);
    assert_eq!(o.theme, Theme::Default);
    assert_eq!(o.title.as_deref(), Some("T"));
    assert_eq!(o.layout.footer.as_deref(), Some("by {author}"));
    assert_eq!(o.layout.header.as_deref(), Some("Internal"));
    assert!(o.layout.page_numbers);
    a.toc = true;
    let o = layered_options(".", &None, None, &a, None);
    assert!(o.toc, "--toc wins over --no-toc");
}

#[test]
fn theme_requests() {
    assert!(matches!(theme_request("book"), ThemeRequest::Builtin(Theme::Book)));
    assert!(matches!(theme_request("corporate.toml"), ThemeRequest::File(p) if p == "corporate.toml"));
    match theme_request("sparkly") {
        ThemeRequest::Unknown(e) => assert_eq!(e, "unknown theme: sparkly (built-ins: default, book; or a .toml file)"),
        _ => panic!("sparkly is no theme"),
    }
    let mut c = config_toc(false);
    assert!(config_theme_file(&c).is_none());
    c.document.as_mut().unwrap().theme = Some("t.toml".to_string());
    assert_eq!(config_theme_file(&c).as_deref(), Some("t.toml"));
}

#[test]
fn format_choice() {
    assert_eq!(output_format(Some(FormatArg::Typst), Some("pdf")), OutputFormat::Typst);
    assert_eq!(output_format(None, Some("HTML")), OutputFormat::Html);
    assert_eq!(output_format(None, Some("typ")), OutputFormat::Typst);
    assert_eq!(output_format(None, Some("docx")), OutputFormat::Docx);
    assert_eq!(output_format(None, Some("txt")), OutputFormat::Pdf);
    assert_eq!(output_format(None, None), OutputFormat::Pdf);
    assert_eq!(OutputFormat::from(FormatArg::Html), OutputFormat::Html);
    assert_eq!(Paper::from(PaperArg::A5), Paper::A5);
    assert_eq!(Theme::from(ThemeArg::Book), Theme::Book);
}

#[test]
fn stdout_choice() {
    let mut a = args();
    assert!(!to_stdout(&a, false));
    assert!(to_stdout(&a, true));
    a.output = Some("-".to_string());
    assert!(to_stdout(&a, false));
    a.output = Some("out.pdf".to_string());
    assert!(!to_stdout(&a, true));
}

#[test]
fn input_size_cap() {
    let mut p = SecurityPolicy::strict(".");
    p.max_input_bytes = 10;
    assert!(check_input_size("a.md", 10, &p).is_ok());
    assert_eq!(check_input_size("a.md", 11, &p).unwrap_err(), "a.md is 11 bytes, over the 10 byte limit");
}

#[test]
fn directory_conversion() {
    let mut a = args();
    assert_eq!(dir_extension(&a).unwrap(), "pdf");
    a.format = Some(FormatArg::Html);
    assert_eq!(dir_extension(&a).unwrap(), "html");
    a.output = Some("-".to_string());
    assert_eq!(dir_extension(&a).unwrap_err(), "cannot stream a directory conversion to stdout");
    assert_eq!(classify_entry(".git", true, None), Entry::Skip);
    assert_eq!(classify_entry("docs", true, None), Entry::Descend);
    assert_eq!(classify_entry("a.md", false, Some("md")), Entry::Take);
    assert_eq!(classify_entry("b.markdown", false, Some("markdown")), Entry::Take);
    assert_eq!(classify_entry("c.txt", false, Some("txt")), Entry::Skip);
    assert_eq!(classify_entry("README", false, None), Entry::Skip);
    assert_eq!(dir_summary(0, 3).unwrap(), "converted 3 file(s)");
    assert_eq!(dir_summary(1, 3).unwrap_err(), "1 of 3 file(s) failed");
}

#[test]
fn stats_count_everything() {
    let md = "# Title\n\nText with ![i](a.png) and a note[^n].\n\n```rust\nfn main() {}\n```\n\n| a | b |\n|---|---|\n| ![x](x.png) | 2 |\n\n> ## Quoted\n\n- item\n\n  para\n\n[^n]: Note with ![y](y.png).\n";
    let s = Stats::of(&parse(md));
    assert_eq!(s.headings, 2);
    assert_eq!(s.paragraphs, 4);
    assert_eq!(s.code, 1);
    assert_eq!(s.tables, 1);
    assert_eq!(s.images, 3);
    assert_eq!(s.footnotes, 1);
}

#[test]
fn validate_report_and_strict() {
    let (stats, diags) = check("# Doc\n\n![x](https://example.com/x.png)\n", ".", &AssetProbes::new());
    assert_eq!(diags.len(), 1);
    let text = report("doc.md", &stats, &diags);
    assert_eq!(
        text,
        "doc.md\n  1 headings, 1 paragraphs, 0 code blocks, 0 tables, 1 images, 0 footnotes\n  1 warning(s):\n    - remote image not loaded (remote resources are disabled): https://example.com/x.png\n"
    );
    let (stats, diags) = check("# A\n\ntext\n", ".", &AssetProbes::new());
    assert_eq!(report("a.md", &stats, &diags), "a.md\n  1 headings, 1 paragraphs, 0 code blocks, 0 tables, 0 images, 0 footnotes\n  ok \u{2014} no problems found\n");
    assert!(strict_gate(false, 2).is_ok());
    assert!(strict_gate(true, 0).is_ok());
    assert_eq!(strict_gate(true, 2).unwrap_err(), "2 warning(s) found (--strict)");
}

#[test]
fn extension_round_trip() {
    for f in [OutputFormat::Pdf, OutputFormat::Typst, OutputFormat::Html, OutputFormat::Docx] {
        assert_eq!(OutputFormat::from_extension(f.extension()), Some(f));
        assert_eq!(output_format(None, Some(f.extension())), f);
    }
}

/// The sample document shipped with the project.
const SAMPLE_MD: &str = "# md2pdf\n\nA small, fast, **local** Markdown to PDF converter. No browser, no LaTeX, no\nPython — just a single binary that turns this file into a clean PDF.\n\n## Why\n\nMost Markdown-to-PDF tools drag in a whole headless browser or a full LaTeX\ndistribution. `md2pdf` compiles everything in-process with [Typst][typst] and\nships the fonts inside the binary, so the only thing you install is one\nexecutable.\n\n[typst]: https://typst.app\n\n## Features\n\n- CommonMark plus GitHub extensions\n- Tables, task lists and footnotes[^1]\n- Syntax-friendly code blocks\n- Two themes and an optional table of contents\n\n[^1]: Footnotes render at the bottom of the page, just like this one.\n\n### Inline formatting\n\nYou get **bold**, *italic*, ~~strikethrough~~ and `inline code`, plus\n[links](https://example.com) that stay clickable in the PDF.\n\n### A table\n\n| Feature      | Supported | Notes                 |\n|:-------------|:---------:|----------------------:|\n| Tables       | yes       | with column alignment |\n| Code blocks  | yes       | monospace, boxed      |\n| Footnotes    | yes       | numbered              |\n\n### A code block\n\n```rust\nfn main() {\n    println!(\"rendered by md2pdf\");\n}\n```\n\n### A task list\n\n- [x] Parse Markdown\n- [x] Emit Typst\n- [ ] Conquer the world\n\n> Blockquotes are supported too — handy for callouts and citations.\n\n---\n\nThat's it. Run `md2pdf examples/sample.md` and open the result.\n";

#[test]
fn cli_validate_ok() {
    let (stats, diags) = check(SAMPLE_MD, ".", &AssetProbes::new());
    let text = report("examples/sample.md", &stats, &diags);
    assert!(text.contains("ok"), "{text}");
    assert!(diags.is_empty());
    assert!(strict_gate(true, diags.len() as u64).is_ok());
}

#[test]
fn theme_unknown_fails() {
    match theme_request("sparkly") {
        ThemeRequest::Unknown(e) => assert!(e.contains("unknown theme")),
        _ => panic!("sparkly is not a theme"),
    }
}

#[test]
fn theme_list() {
    let themes = Theme::builtin();
    let names: Vec<&str> = themes.iter().map(|t| t.name()).collect();
    assert!(names.contains(&"default"));
    assert!(names.contains(&"book"));
}

#[test]
fn config_sample_is_valid_toml() {
    let table: toml::Table = toml::from_str(Config::sample()).expect("sample config must parse");
    // All fields are commented out, so no section is set.
    assert!(table.get("document").is_none());
    assert!(table.get("security").is_none());
    assert!(table.get("layout").is_none());
}

#[test]
fn empty_directory_is_refused() {
    assert_eq!(batch_found("docs", 0).unwrap_err(), "no Markdown files found under docs");
    assert!(batch_found("docs", 2).is_ok());
}

#[test]
fn output_names_follow_the_input() {
    assert_eq!(with_extension("docs/a.md", "pdf"), "docs/a.pdf");
    assert_eq!(with_extension("a.b.md", "html"), "a.b.html");
    assert_eq!(with_extension("notes", "pdf"), "notes.pdf");
    assert_eq!(with_extension("dir/.hidden", "pdf"), "dir/.hidden.pdf");
    assert_eq!(with_extension("docs/a.md/", "pdf"), "docs/a.pdf");
    assert_eq!(with_extension("docs/..", "pdf"), "docs/..");
    assert_eq!(with_extension("/", "pdf"), "/");
    assert_eq!(with_extension("a.md", ""), "a");
    assert_eq!(join_path("out", "sub/a.md"), "out/sub/a.md");
    assert_eq!(join_path("out/", "a.md"), "out/a.md");
    assert_eq!(join_path("out", "/abs.md"), "/abs.md");
    assert_eq!(mirrored_output("out", "sub/a.md", "docx"), "out/sub/a.docx");
    for (p, e) in [("docs/a.md", "pdf"), ("x/y.z/w", "typ"), ("b.", "html"), ("...", "pdf")] {
        assert_eq!(with_extension(p, e), std::path::Path::new(p).with_extension(e).to_string_lossy(), "{p}");
    }
}

#[test]
fn document_root_is_the_input_directory() {
    assert_eq!(doc_root_of("docs/a.md"), "docs");
    assert_eq!(doc_root_of("a.md"), ".");
    assert_eq!(doc_root_of("/a.md"), "/");
    assert_eq!(doc_root_of(""), ".");
    for p in ["docs/sub/a.md", "a//b.md", "./a.md", "a/./b.md", "/./a", "docs/a.md/", "a/..", "..", "/", "//x"] {
        let std_root = std::path::Path::new(p)
            .parent()
            .filter(|q| !q.as_os_str().is_empty())
            .map(|q| q.to_string_lossy().into_owned())
            .unwrap_or_else(|| ".".to_string());
        assert_eq!(doc_root_of(p), std_root, "{p}");
    }
}
