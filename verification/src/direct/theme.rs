//! Typst preambles for the two looks, and document assembly: a preamble,
//! an optional title block, an optional table of contents and the body,
//! compiled in one pass.

use vstd::prelude::*;
use crate::render::typst::{escaped, push_esc};
use crate::text::{all_ws, chars_of, lemma_trim_empty_iff_blank, trim};

verus! {

/// A visual theme.
#[derive(PartialEq, Eq, Structural, Clone, Copy, Debug)]
pub enum Theme {
    /// Serif body with blue accents.
    Default,
    /// Classic book look set in New Computer Modern.
    Book,
}

/// A paper size.
#[derive(PartialEq, Eq, Structural, Clone, Copy, Debug)]
pub enum Paper {
    A4,
    Letter,
}

pub open spec fn paper_name(p: Paper) -> Seq<char> {
    match p {
        Paper::A4 => "a4"@,
        Paper::Letter => "us-letter"@,
    }
}

impl Paper {
    /// The name Typst's `page(paper: …)` knows this size by.
    pub fn typst_name(self) -> (n: &'static str)
        ensures
            n@ == paper_name(self),
    {
        match self {
            Paper::A4 => "a4",
            Paper::Letter => "us-letter",
        }
    }
}

pub const DEFAULT_PAGE: &'static str = "\", margin: (x: 2.2cm, y: 2.4cm), numbering: \"1\")\n";

pub const DEFAULT_STYLE: &'static str = "#set text(font: \"Libertinus Serif\", size: 11pt, lang: \"en\")\n#set par(justify: true, leading: 0.62em)\n#show heading: set text(fill: rgb(\"#13315c\"))\n#show heading.where(level: 1): set text(size: 1.5em)\n#show link: set text(fill: rgb(\"#1565c0\"))\n#show raw: set text(font: \"DejaVu Sans Mono\", size: 9.5pt)\n#show raw.where(block: true): block.with(fill: rgb(\"#f4f6f8\"), inset: 10pt, radius: 4pt, width: 100%, stroke: 0.5pt + rgb(\"#e1e4e8\"))\n#show quote.where(block: true): set block(stroke: (left: 2pt + rgb(\"#1565c0\")), inset: (left: 1em, y: 0.4em))\n";

pub const BOOK_PAGE: &'static str = "\", margin: (x: 2.6cm, y: 2.8cm), numbering: \"1\")\n";

pub const BOOK_STYLE: &'static str = "#set text(font: \"New Computer Modern\", size: 11pt, lang: \"en\")\n#set par(justify: true, leading: 0.7em, first-line-indent: 1.2em)\n#show heading: set text(fill: rgb(\"#5a1e1e\"))\n#show heading.where(level: 1): set text(size: 1.6em)\n#show link: set text(fill: rgb(\"#8a2b2b\"))\n#show raw: set text(font: \"DejaVu Sans Mono\", size: 9.5pt)\n#show raw.where(block: true): block.with(fill: luma(245), inset: 10pt, radius: 2pt, width: 100%)\n#show quote.where(block: true): set block(stroke: (left: 2pt + luma(160)), inset: (left: 1em, y: 0.4em))\n";

pub const OUTLINE: &'static str = "#outline(title: [Contents], indent: auto)\n#v(1.2em)\n\n";

/// Page setup and styling for a theme on a paper size, then a blank line.
pub open spec fn preamble_text(theme: Theme, paper: Paper) -> Seq<char> {
    "#set page(paper: \""@ + paper_name(paper) + match theme {
        Theme::Default => DEFAULT_PAGE@ + DEFAULT_STYLE@,
        Theme::Book => BOOK_PAGE@ + BOOK_STYLE@,
    } + "\n"@
}

pub open spec fn accent(theme: Theme) -> Seq<char> {
    match theme {
        Theme::Default => "#13315c"@,
        Theme::Book => "#5a1e1e"@,
    }
}

/// A centered title in the theme's accent color over a short rule.
pub open spec fn title_text(title: Seq<char>, theme: Theme) -> Seq<char> {
    "#align(center)[\n"@ + "  #text(size: 22pt, weight: \"bold\", fill: rgb(\""@ + accent(theme) + "\"))[#\""@
        + escaped(title) + "\"]\n"@ + "  #v(0.3em)\n"@ + "  #line(length: 38%, stroke: 0.6pt + rgb(\""@ + accent(theme)
        + "\"))\n"@ + "]\n"@ + "#v(1.4em)\n\n"@
}

/// The whole source: preamble, a title block unless the title is blank, a
/// table of contents if asked for, then the body.
pub open spec fn assembled(title: Seq<char>, body: Seq<char>, theme: Theme, paper: Paper, toc: bool) -> Seq<char> {
    preamble_text(theme, paper) + (if trim(title).len() == 0 { seq![] } else { title_text(title, theme) }) + (if toc {
        OUTLINE@
    } else {
        seq![]
    }) + body
}

fn preamble(theme: Theme, paper: Paper) -> (s: String)
    ensures
        s@ == preamble_text(theme, paper),
{
    let mut s = String::new();
    s.append("#set page(paper: \"");
    s.append(paper.typst_name());
    match theme {
        Theme::Default => {
            s.append(DEFAULT_PAGE);
            s.append(DEFAULT_STYLE);
        },
        Theme::Book => {
            s.append(BOOK_PAGE);
            s.append(BOOK_STYLE);
        },
    }
    s.append("\n");
    s
}

fn title_block(s: &mut String, title: &str, theme: Theme)
    ensures
        final(s)@ == old(s)@ + title_text(title@, theme),
{
    let accent = match theme {
        Theme::Default => "#13315c",
        Theme::Book => "#5a1e1e",
    };
    s.append("#align(center)[\n");
    s.append("  #text(size: 22pt, weight: \"bold\", fill: rgb(\"");
    s.append(accent);
    s.append("\"))[#\"");
    push_esc(s, title);
    s.append("\"]\n");
    s.append("  #v(0.3em)\n");
    s.append("  #line(length: 38%, stroke: 0.6pt + rgb(\"");
    s.append(accent);
    s.append("\"))\n");
    s.append("]\n");
    s.append("#v(1.4em)\n\n");
}

/// Build the full Typst source for a document.
pub fn assemble(title: &str, body: &str, theme: Theme, paper: Paper, toc: bool) -> (s: String)
    ensures
        s@ == assembled(title@, body@, theme, paper, toc),
{
    let mut s = preamble(theme, paper);
    let v = chars_of(title);
    assert(v@.subrange(0, v@.len() as int) =~= v@);
    proof { lemma_trim_empty_iff_blank(title@); }
    if !all_ws(&v, 0, v.len()) {
        title_block(&mut s, title, theme);
    }
    if toc {
        s.append(OUTLINE);
    }
    s.append(body);
    s
}

} // verus!
