//! The command line, as plain values: what was asked for, with paths kept as
//! the text the user typed. Parsing `argv` into these is the binary's job.

use vstd::prelude::*;
use crate::render::{OutputFormat, Paper};
use crate::theme::Theme;

verus! {

/// A subcommand.
#[derive(Debug)]
pub enum Command {
    /// Convert a Markdown file (or a directory of them).
    Convert(ConvertArgs),
    /// Parse documents and report problems without rendering.
    Validate { inputs: Vec<String>, strict: bool },
    /// Check that the local environment can render documents.
    Doctor,
    /// Scaffold a documentation project in the given directory.
    Init { dir: String },
    /// Inspect and manage themes.
    Theme(ThemeCommand),
    /// Print a shell completion script for the named shell.
    Completions { shell: String },
    /// Print the man page.
    Man,
}

/// `theme` subcommands.
#[derive(Debug)]
pub enum ThemeCommand {
    /// List the available built-in themes.
    List,
    /// Write a starter `<name>.toml` theme file.
    Create { name: String },
}

/// Options of a conversion. Every field is optional: an unset field leaves
/// the value from the config file, or the built-in default.
#[derive(Debug, Clone)]
pub struct ConvertArgs {
    /// Markdown file (or directory) to convert; `-` reads standard input.
    pub input: Option<String>,
    /// Output path; `-` writes standard output.
    pub output: Option<String>,
    pub format: Option<FormatArg>,
    /// A built-in theme name or a path to a `.toml` theme.
    pub theme: Option<String>,
    pub paper: Option<PaperArg>,
    pub toc: bool,
    pub no_toc: bool,
    pub title: Option<String>,
    pub header: Option<String>,
    pub footer: Option<String>,
    pub page_numbers: bool,
    pub no_page_numbers: bool,
    /// Path to an `md2pdf.toml` config file.
    pub config: Option<String>,
}

/// The built-in themes, as a command-line value.
#[derive(PartialEq, Eq, Structural, Clone, Copy, Debug)]
pub enum ThemeArg {
    Default,
    Book,
}

/// Paper sizes, as a command-line value.
#[derive(PartialEq, Eq, Structural, Clone, Copy, Debug)]
pub enum PaperArg {
    A4,
    A5,
    Letter,
    Legal,
}

/// Output formats, as a command-line value.
#[derive(PartialEq, Eq, Structural, Clone, Copy, Debug)]
pub enum FormatArg {
    Pdf,
    Typst,
    Html,
    Docx,
}

pub open spec fn theme_of_arg(a: ThemeArg) -> Theme {
    match a {
        ThemeArg::Default => Theme::Default,
        ThemeArg::Book => Theme::Book,
    }
}

pub open spec fn paper_of_arg(a: PaperArg) -> Paper {
    match a {
        PaperArg::A4 => Paper::A4,
        PaperArg::A5 => Paper::A5,
        PaperArg::Letter => Paper::Letter,
        PaperArg::Legal => Paper::Legal,
    }
}

pub open spec fn format_of_arg(a: FormatArg) -> OutputFormat {
    match a {
        FormatArg::Pdf => OutputFormat::Pdf,
        FormatArg::Typst => OutputFormat::Typst,
        FormatArg::Html => OutputFormat::Html,
        FormatArg::Docx => OutputFormat::Docx,
    }
}

impl From<ThemeArg> for Theme {
    fn from(value: ThemeArg) -> (t: Theme) {
        match value {
            ThemeArg::Default => Theme::Default,
            ThemeArg::Book => Theme::Book,
        }
    }
}

impl vstd::std_specs::convert::FromSpecImpl<ThemeArg> for Theme {
    open spec fn obeys_from_spec() -> bool {
        true
    }

    open spec fn from_spec(v: ThemeArg) -> Theme {
        theme_of_arg(v)
    }
}

impl From<PaperArg> for Paper {
    fn from(value: PaperArg) -> (p: Paper) {
        match value {
            PaperArg::A4 => Paper::A4,
            PaperArg::A5 => Paper::A5,
            PaperArg::Letter => Paper::Letter,
            PaperArg::Legal => Paper::Legal,
        }
    }
}

impl vstd::std_specs::convert::FromSpecImpl<PaperArg> for Paper {
    open spec fn obeys_from_spec() -> bool {
        true
    }

    open spec fn from_spec(v: PaperArg) -> Paper {
        paper_of_arg(v)
    }
}

impl From<FormatArg> for OutputFormat {
    fn from(value: FormatArg) -> (f: OutputFormat) {
        match value {
            FormatArg::Pdf => OutputFormat::Pdf,
            FormatArg::Typst => OutputFormat::Typst,
            FormatArg::Html => OutputFormat::Html,
            FormatArg::Docx => OutputFormat::Docx,
        }
    }
}

impl vstd::std_specs::convert::FromSpecImpl<FormatArg> for OutputFormat {
    open spec fn obeys_from_spec() -> bool {
        true
    }

    open spec fn from_spec(v: FormatArg) -> OutputFormat {
        format_of_arg(v)
    }
}

} // verus!
