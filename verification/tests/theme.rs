use md2pdf::theme::{Theme, ThemeOverrides, ThemeSpec};

fn none() -> ThemeOverrides {
    ThemeOverrides {
        base: None,
        body_font: None,
        mono_font: None,
        body_size_pt: None,
        heading_color: None,
        link_color: None,
        accent_color: None,
        code_fill: None,
        code_stroke: None,
        margin_x_cm: None,
        margin_y_cm: None,
        justify: None,
        first_line_indent_em: None,
    }
}

/// The overrides a theme file sets, read with the toml crate; `None` when the
/// file sets a key a theme does not have.
fn overrides_from_toml(contents: &str) -> Option<ThemeOverrides> {
    let table: toml::Table = toml::from_str(contents).ok()?;
    let mut o = none();
    for (k, v) in table {
        let text = match &v {
            toml::Value::String(s) => s.clone(),
            toml::Value::Float(f) => format!("{f}"),
            toml::Value::Integer(i) => format!("{i}"),
            _ => String::new(),
        };
        match k.as_str() {
            "base" => o.base = Some(text),
            "body_font" => o.body_font = Some(text),
            "mono_font" => o.mono_font = Some(text),
            "body_size_pt" => o.body_size_pt = Some(text),
            "heading_color" => o.heading_color = Some(text),
            "link_color" => o.link_color = Some(text),
            "accent_color" => o.accent_color = Some(text),
            "code_fill" => o.code_fill = Some(text),
            "code_stroke" => o.code_stroke = Some(text),
            "margin_x_cm" => o.margin_x_cm = Some(text),
            "margin_y_cm" => o.margin_y_cm = Some(text),
            "justify" => o.justify = v.as_bool(),
            "first_line_indent_em" => o.first_line_indent_em = Some(text),
            _ => return None,
        }
    }
    Some(o)
}

#[test]
fn custom_theme_inherits_from_base() {
    let o = overrides_from_toml("base = \"book\"\nheading_color = \"#222222\"\nbody_size_pt = 12.5\n").unwrap();
    let spec = ThemeSpec::from_overrides(o, "mytheme").unwrap();
    assert_eq!(spec.name, "mytheme");
    assert_eq!(spec.heading_color, "#222222");
    assert_eq!(spec.body_size_pt, "12.5");
    // Untouched fields come from the book base.
    assert_eq!(spec.body_font, "New Computer Modern");
    assert_eq!(spec.first_line_indent_em, "1.2");
}

#[test]
fn theme_defaults_to_default_base() {
    let spec = ThemeSpec::from_overrides(overrides_from_toml("").unwrap(), "empty").unwrap();
    assert_eq!(spec.body_font, Theme::Default.spec().body_font);
}

#[test]
fn theme_rejects_unknown_base_and_fields() {
    let o = overrides_from_toml("base = \"nope\"").unwrap();
    assert!(ThemeSpec::from_overrides(o, "t").is_err());
    assert!(overrides_from_toml("not_a_field = 1").is_none());
}

#[test]
fn theme_rejects_color_injection() {
    let o = overrides_from_toml("heading_color = '\") #eval(...) //'").unwrap();
    let res = ThemeSpec::from_overrides(o, "t");
    assert!(res.is_err(), "non-hex colors must be rejected");
}

#[test]
fn sample_theme_parses() {
    let o = overrides_from_toml(ThemeSpec::sample()).unwrap();
    let spec = ThemeSpec::from_overrides(o, "sample").unwrap();
    assert_eq!(spec.body_font, "Libertinus Serif");
}

#[test]
fn unknown_base_error_names_it() {
    let mut o = none();
    o.base = Some("nope".to_string());
    assert_eq!(ThemeSpec::from_overrides(o, "t").unwrap_err(), "unknown base theme: nope");
}

#[test]
fn colors_without_hash_gain_one() {
    let mut o = none();
    o.link_color = Some("abc".to_string());
    o.code_stroke = Some("#AABBCCDD".to_string());
    let spec = ThemeSpec::from_overrides(o, "t").unwrap();
    assert_eq!(spec.link_color, "#abc");
    assert_eq!(spec.code_stroke.as_deref(), Some("#AABBCCDD"));
    assert_eq!(spec.name, "t");
}

#[test]
fn bad_color_error_quotes_value() {
    let mut o = none();
    o.accent_color = Some("#12".to_string());
    assert_eq!(
        ThemeSpec::from_overrides(o, "t").unwrap_err(),
        "invalid color \"#12\" (expected hex like \"#1a2b3c\")"
    );
}

#[test]
fn builtin_names_round_trip() {
    for t in Theme::builtin() {
        assert_eq!(Theme::from_name(t.name()), Some(t.duplicate()));
    }
    assert_eq!(Theme::from_name("Book"), None);
    assert_eq!(Theme::Book.description(), "Classic book look set in New Computer Modern");
}
