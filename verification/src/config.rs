//! The `md2pdf.toml` configuration file: document defaults, security limits
//! and page furniture. Values here are defaults; command-line flags override
//! them.

use vstd::prelude::*;
use crate::ir::opt_v;
use crate::render::{LayoutV, OptionsV, Paper, RenderOptions};
use crate::security::{PolicyV, SecurityPolicy};
use crate::text::{ends_with, owned, same, str_ends_with};
use crate::theme::{builtin_named, clone_opt, Theme};

verus! {

/// Top-level configuration. All sections and fields are optional.
#[derive(Debug)]
pub struct Config {
    pub document: Option<DocumentConfig>,
    pub security: Option<SecurityConfig>,
    pub layout: Option<LayoutConfig>,
}

#[derive(Debug)]
pub struct DocumentConfig {
    pub theme: Option<String>,
    pub paper: Option<String>,
    pub toc: Option<bool>,
    pub title: Option<String>,
}

#[derive(Debug)]
pub struct SecurityConfig {
    pub max_input_bytes: Option<u64>,
    pub max_image_bytes: Option<u64>,
}

#[derive(Debug)]
pub struct LayoutConfig {
    pub header: Option<String>,
    pub footer: Option<String>,
    pub page_numbers: Option<bool>,
}

/// The paper size a CLI/config name denotes.
pub open spec fn paper_named(name: Seq<char>) -> Option<Paper> {
    if name == "a4"@ {
        Some(Paper::A4)
    } else if name == "a5"@ {
        Some(Paper::A5)
    } else if name == "letter"@ {
        Some(Paper::Letter)
    } else if name == "legal"@ {
        Some(Paper::Legal)
    } else {
        None
    }
}

impl Paper {
    /// Look up a paper size by its CLI/config name.
    pub fn from_name(name: &str) -> (p: Option<Paper>)
        ensures
            p == paper_named(name@),
    {
        if same(name, "a4") {
            Some(Paper::A4)
        } else if same(name, "a5") {
            Some(Paper::A5)
        } else if same(name, "letter") {
            Some(Paper::Letter)
        } else if same(name, "legal") {
            Some(Paper::Legal)
        } else {
            None
        }
    }
}

/// Render options after applying the `[document]` and `[layout]` sections:
/// each field that is set replaces the current value; a theme or paper name
/// that names no built-in leaves the current value.
pub open spec fn applied_options(c: Config, o: OptionsV) -> OptionsV {
    let o1 = match c.document {
        Some(d) => OptionsV {
            theme: match opt_v(d.theme) {
                Some(n) => match builtin_named(n) {
                    Some(t) => t,
                    None => o.theme,
                },
                None => o.theme,
            },
            paper: match opt_v(d.paper) {
                Some(n) => match paper_named(n) {
                    Some(p) => p,
                    None => o.paper,
                },
                None => o.paper,
            },
            toc: match d.toc {
                Some(t) => t,
                None => o.toc,
            },
            title: if d.title is Some { opt_v(d.title) } else { o.title },
            ..o
        },
        None => o,
    };
    match c.layout {
        Some(l) => OptionsV {
            layout: LayoutV {
                header: if l.header is Some { opt_v(l.header) } else { o1.layout.header },
                footer: if l.footer is Some { opt_v(l.footer) } else { o1.layout.footer },
                page_numbers: match l.page_numbers {
                    Some(p) => p,
                    None => o1.layout.page_numbers,
                },
            },
            ..o1
        },
        None => o1,
    }
}

/// A policy after applying the `[security]` section.
pub open spec fn applied_security(c: Config, p: PolicyV) -> PolicyV {
    match c.security {
        Some(s) => PolicyV {
            max_input_bytes: match s.max_input_bytes {
                Some(v) => v,
                None => p.max_input_bytes,
            },
            max_image_bytes: match s.max_image_bytes {
                Some(v) => v,
                None => p.max_image_bytes,
            },
            ..p
        },
        None => p,
    }
}

/// `Ok` unless the `[document]` section names an unknown theme (neither a
/// built-in nor a `.toml` path) or an unknown paper size; the theme is checked first.
pub open spec fn validation(c: Config) -> Result<(), Seq<char>> {
    match c.document {
        Some(d) => {
            if d.theme matches Some(t) && builtin_named(t@) is None && !ends_with(t@, ".toml"@) {
                Err("unknown theme: "@ + d.theme->Some_0@)
            } else if d.paper matches Some(p) && paper_named(p@) is None {
                Err("unknown paper size: "@ + d.paper->Some_0@)
            } else {
                Ok(())
            }
        },
        None => Ok(()),
    }
}

pub const CONFIG_SAMPLE: &'static str = "# md2pdf configuration file.\n# Place this file in your project root to set document defaults.\n# CLI flags override values in this file.\n\n# [document]\n# theme = \"default\"\n# paper = \"a4\"\n# toc = false\n# title = \"My Document\"\n\n# [security]\n# max_input_bytes = 16777216\n# max_image_bytes = 33554432\n\n# Header and footer accept {title}, {author} and {date} placeholders,\n# resolved from the document's frontmatter.\n# [layout]\n# header = \"{title}\"\n# footer = \"{author}\"\n# page_numbers = true\n";

impl Config {
    /// Apply the `[document]` and `[layout]` sections to `opts`; fields that
    /// are not set leave the current value.
    pub fn apply_to_render_options(&self, opts: &mut RenderOptions)
        ensures
            final(opts)@ == applied_options(*self, old(opts)@),
    {
        if let Some(doc) = &self.document {
            if let Some(theme) = &doc.theme {
                if let Some(t) = Theme::from_name(theme.as_str()) {
                    opts.theme = t;
                }
            }
            if let Some(paper) = &doc.paper {
                if let Some(p) = Paper::from_name(paper.as_str()) {
                    opts.paper = p;
                }
            }
            if let Some(toc) = doc.toc {
                opts.toc = toc;
            }
            if doc.title.is_some() {
                opts.title = clone_opt(&doc.title);
            }
        }
        if let Some(layout) = &self.layout {
            if layout.header.is_some() {
                opts.layout.header = clone_opt(&layout.header);
            }
            if layout.footer.is_some() {
                opts.layout.footer = clone_opt(&layout.footer);
            }
            if let Some(pn) = layout.page_numbers {
                opts.layout.page_numbers = pn;
            }
        }
    }

    /// Apply the `[security]` section to `policy`.
    pub fn apply_to_security(&self, policy: &mut SecurityPolicy)
        ensures
            final(policy)@ == applied_security(*self, old(policy)@),
    {
        if let Some(sec) = &self.security {
            if let Some(v) = sec.max_input_bytes {
                policy.max_input_bytes = v;
            }
            if let Some(v) = sec.max_image_bytes {
                policy.max_image_bytes = v;
            }
        }
    }

    /// Check the theme and paper names of the `[document]` section.
    pub fn validate(&self) -> (r: Result<(), String>)
        ensures
            match r {
                Ok(()) => validation(*self) == Ok::<(), Seq<char>>(()),
                Err(e) => validation(*self) == Err::<(), Seq<char>>(e@),
            },
    {
        if let Some(doc) = &self.document {
            if let Some(theme) = &doc.theme {
                if Theme::from_name(theme.as_str()).is_none() && !str_ends_with(theme.as_str(), ".toml") {
                    let mut e = owned("unknown theme: ");
                    e.append(theme.as_str());
                    return Err(e);
                }
            }
            if let Some(paper) = &doc.paper {
                if Paper::from_name(paper.as_str()).is_none() {
                    let mut e = owned("unknown paper size: ");
                    e.append(paper.as_str());
                    return Err(e);
                }
            }
        }
        Ok(())
    }

    /// A sample `md2pdf.toml` with every field commented out.
    pub fn sample() -> (s: &'static str)
        ensures
            s@ == CONFIG_SAMPLE@,
    {
        CONFIG_SAMPLE
    }
}

/// A config that validation accepts takes full effect: its paper size and
/// a built-in theme it names are the ones the options end up with. (A `.toml`
/// theme is loaded by the caller.)
pub proof fn law_valid_config_applies(c: Config, o: OptionsV)
    requires
        validation(c) is Ok,
    ensures
        match c.document {
            Some(d) => {
                &&& match d.paper {
                    Some(p) => paper_named(p@) is Some && applied_options(c, o).paper == paper_named(p@)->Some_0,
                    None => true,
                }
                &&& match d.theme {
                    Some(t) => builtin_named(t@) is Some ==> applied_options(c, o).theme == builtin_named(t@)->Some_0,
                    None => true,
                }
            },
            None => true,
        },
{
}

} // verus!
