use md2pdf::ir::Meta;
use md2pdf::render::docx::lower::{half_points_of, hex_color_of};
use md2pdf::render::html::{unique_slug, Slugs};
use md2pdf::render::substitute_meta;

#[test]
fn slugs_are_unique_and_readable() {
    let mut seen = Slugs::new();
    assert_eq!(unique_slug("Hello, World!", &mut seen), "hello-world");
    assert_eq!(unique_slug("hello world", &mut seen), "hello-world-2");
    assert_eq!(unique_slug("***", &mut seen), "section");
    assert_eq!(unique_slug("", &mut seen), "section-2");
    assert_eq!(unique_slug("Ünïcode  Straße", &mut seen), "ünïcode-straße");
}

#[test]
fn numbered_anchor_never_repeats_a_given_one() {
    let mut seen = Slugs::new();
    assert_eq!(unique_slug("A", &mut seen), "a");
    assert_eq!(unique_slug("A", &mut seen), "a-2");
    assert_eq!(unique_slug("A 2", &mut seen), "a-2-2");
    assert_eq!(unique_slug("A", &mut seen), "a-3");
    assert_eq!(seen.given, vec!["a", "a-2", "a-2-2", "a-3"]);
}

#[test]
fn placeholders_are_filled_in_order() {
    let mut meta = Meta::empty();
    meta.title = Some("T".to_string());
    meta.date = Some("D".to_string());
    assert_eq!(substitute_meta("{title} by {author} on {date}", &meta), "T by  on D");
    meta.title = Some("{date}".to_string());
    assert_eq!(substitute_meta("{title}", &meta), "D");
    assert_eq!(substitute_meta("no placeholders", &meta), "no placeholders");
}

#[test]
fn docx_sizes_and_colors() {
    assert_eq!(half_points_of("11"), 22);
    assert_eq!(half_points_of("12.5"), 25);
    assert_eq!(half_points_of("10.2"), 20);
    assert_eq!(half_points_of("10.25"), 21);
    assert_eq!(hex_color_of("#13315c"), "13315c");
    assert_eq!(hex_color_of("##abc"), "abc");
    assert_eq!(hex_color_of("abc"), "abc");
}

#[test]
fn escaping_for_typst_and_html() {
    assert_eq!(md2pdf::render::typst::esc("a\"b\\c\nd\te\r"), "a\\\"b\\\\c\\nd\\te\\r");
    assert_eq!(md2pdf::render::html::esc("<a href='x'>&\"</a>"), "&lt;a href=&#39;x&#39;&gt;&amp;&quot;&lt;/a&gt;");
}

#[test]
fn anchors_have_no_stray_dashes() {
    let mut seen = Slugs::new();
    assert_eq!(unique_slug("--Intro--", &mut seen), "intro");
    assert_eq!(unique_slug("a - - b", &mut seen), "a-b");
    assert_eq!(unique_slug("!!!", &mut seen), "section");
    assert_eq!(unique_slug("Intro!", &mut seen), "intro-2");
}
