use md2pdf::config::{Config, DocumentConfig, SecurityConfig};
use md2pdf::render::{Layout, Paper, RenderOptions};
use md2pdf::security::SecurityPolicy;
use md2pdf::theme::Theme;

#[test]
fn validate_theme() {
    let config = Config {
        document: Some(DocumentConfig { theme: Some("nonexistent".into()), paper: None, toc: None, title: None }),
        security: None,
        layout: None,
    };
    assert!(config.validate().is_err());
}

#[test]
fn validate_paper() {
    let config = Config {
        document: Some(DocumentConfig { theme: None, paper: Some("huge".into()), toc: None, title: None }),
        security: None,
        layout: None,
    };
    assert!(config.validate().is_err());
}

#[test]
fn config_validate_ok() {
    let config = Config {
        document: Some(DocumentConfig { theme: Some("book".into()), paper: Some("a4".into()), toc: Some(true), title: None }),
        security: None,
        layout: None,
    };
    assert!(config.validate().is_ok());
}

#[test]
fn apply_to_render_options_overrides_some() {
    let mut opts = RenderOptions {
        theme: Theme::Default,
        paper: Paper::A4,
        toc: false,
        title: None,
        layout: Layout::default(),
        security: SecurityPolicy::strict("."),
    };
    let config = Config {
        document: Some(DocumentConfig {
            theme: Some("book".into()),
            paper: Some("letter".into()),
            toc: Some(true),
            title: Some("Config Title".into()),
        }),
        security: None,
        layout: None,
    };
    config.apply_to_render_options(&mut opts);
    assert_eq!(opts.theme, Theme::Book);
    assert_eq!(opts.paper, Paper::Letter);
    assert!(opts.toc);
    assert_eq!(opts.title.as_deref(), Some("Config Title"));
}

#[test]
fn apply_to_render_options_ignores_none() {
    let mut opts = RenderOptions {
        theme: Theme::Default,
        paper: Paper::A4,
        toc: false,
        title: Some("CLI Title".into()),
        layout: Layout::default(),
        security: SecurityPolicy::strict("."),
    };
    let config = Config {
        document: Some(DocumentConfig { theme: None, paper: None, toc: None, title: None }),
        security: None,
        layout: None,
    };
    config.apply_to_render_options(&mut opts);
    assert_eq!(opts.theme, Theme::Default);
    assert_eq!(opts.paper, Paper::A4);
    assert!(!opts.toc);
    assert_eq!(opts.title.as_deref(), Some("CLI Title"));
}

#[test]
fn apply_to_security_overrides() {
    let mut policy = SecurityPolicy::strict(".");
    assert_eq!(policy.max_input_bytes, 16 * 1024 * 1024);
    let config = Config {
        document: None,
        security: Some(SecurityConfig { max_input_bytes: Some(4096), max_image_bytes: Some(8192) }),
        layout: None,
    };
    config.apply_to_security(&mut policy);
    assert_eq!(policy.max_input_bytes, 4096);
    assert_eq!(policy.max_image_bytes, 8192);
}

#[test]
fn empty_config_is_valid() {
    let config = Config { document: None, security: None, layout: None };
    assert!(config.validate().is_ok());
}

#[test]
fn paper_from_name() {
    assert_eq!(Paper::from_name("a4"), Some(Paper::A4));
    assert_eq!(Paper::from_name("a5"), Some(Paper::A5));
    assert_eq!(Paper::from_name("letter"), Some(Paper::Letter));
    assert_eq!(Paper::from_name("legal"), Some(Paper::Legal));
    assert_eq!(Paper::from_name("tabloid"), None);
}
