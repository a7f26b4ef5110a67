//! The decisions of a conversion.
//!
//! Options are layered: built-in defaults, then the config file, then the
//! command-line flags, each layer replacing only what it sets. The format is
//! the `--format` flag, else the output path's extension, else PDF.

use vstd::prelude::*;
use crate::cli::args::{format_of_arg, paper_of_arg, ConvertArgs, FormatArg};
use crate::config::{applied_options, applied_security, Config};
use crate::ir::opt_v;
use crate::render::{extension_of, format_for_extension, Layout, LayoutV, OptionsV, OutputFormat, Paper, RenderOptions};
use crate::security::{PolicyV, SecurityPolicy, DEFAULT_MAX_IMAGE_BYTES, DEFAULT_MAX_INPUT_BYTES};
use crate::text::{decimal, decimal_string, ends_with, owned, same, starts_with, str_ends_with, str_starts_with};
use crate::theme::{builtin_named, clone_opt, Theme, ThemeV};

verus! {

pub const NO_INPUT: &'static str = "no input file given (try `md2pdf <file.md>` or `md2pdf --help`)";

pub const NO_DIRECTORY_STREAM: &'static str = "cannot stream a directory conversion to stdout";

/// How a conversion proceeds.
#[derive(Debug)]
pub enum Route {
    /// Convert every Markdown file under this directory.
    Directory(String),
    /// Convert this one file (`-` for standard input).
    Single(String),
}

pub enum RouteV {
    Directory(Seq<char>),
    Single(Seq<char>),
}

impl View for Route {
    type V = RouteV;

    open spec fn view(&self) -> RouteV {
        match self {
            Route::Directory(d) => RouteV::Directory(d@),
            Route::Single(f) => RouteV::Single(f@),
        }
    }
}

/// No input is an error; an input other than `-` that is a directory is a
/// directory conversion; anything else is a single file.
pub open spec fn route_of(input: Option<Seq<char>>, input_is_dir: bool) -> Result<RouteV, Seq<char>> {
    match input {
        None => Err(NO_INPUT@),
        Some(i) => if i != "-"@ && input_is_dir {
            Ok(RouteV::Directory(i))
        } else {
            Ok(RouteV::Single(i))
        },
    }
}

/// Decide how to carry out a conversion; `input_is_dir` says whether the
/// input path names a directory.
pub fn run(args: &ConvertArgs, input_is_dir: bool) -> (r: Result<Route, String>)
    ensures
        match r {
            Ok(x) => route_of(opt_v(args.input), input_is_dir) == Ok::<RouteV, Seq<char>>(x@),
            Err(e) => route_of(opt_v(args.input), input_is_dir) == Err::<RouteV, Seq<char>>(e@),
        },
{
    match &args.input {
        None => Err(owned(NO_INPUT)),
        Some(i) => {
            if !same(i.as_str(), "-") && input_is_dir {
                Ok(Route::Directory(i.clone()))
            } else {
                Ok(Route::Single(i.clone()))
            }
        },
    }
}

/// Whether the input is standard input.
pub fn reads_stdin(input: &str) -> (b: bool)
    ensures
        b == (input@ == "-"@),
{
    same(input, "-")
}

/// The format of a conversion: the flag, else the one the output
/// extension names, else PDF.
pub open spec fn chosen_format(flag: Option<FormatArg>, output_ext: Option<Seq<char>>) -> OutputFormat {
    match flag {
        Some(f) => format_of_arg(f),
        None => match output_ext {
            Some(e) => match format_for_extension(e) {
                Some(f) => f,
                None => OutputFormat::Pdf,
            },
            None => OutputFormat::Pdf,
        },
    }
}

/// Pick the output format; `output_ext` is the extension of the output path.
pub fn output_format(flag: Option<FormatArg>, output_ext: Option<&str>) -> (f: OutputFormat)
    ensures
        f == chosen_format(flag, match output_ext { Some(e) => Some(e@), None => None }),
{
    match flag {
        Some(a) => OutputFormat::from(a),
        None => match output_ext {
            Some(e) => match OutputFormat::from_extension(e) {
                Some(f) => f,
                None => OutputFormat::Pdf,
            },
            None => OutputFormat::Pdf,
        },
    }
}

/// Output goes to standard output when the output path is `-`, or, with no
/// output path, when the input came from standard input.
pub open spec fn streams(output: Option<Seq<char>>, from_stdin: bool) -> bool {
    match output {
        Some(p) => p == "-"@,
        None => from_stdin,
    }
}

pub fn to_stdout(args: &ConvertArgs, from_stdin: bool) -> (b: bool)
    ensures
        b == streams(opt_v(args.output), from_stdin),
{
    match &args.output {
        Some(p) => same(p.as_str(), "-"),
        None => from_stdin,
    }
}

/// An input of `len` bytes is refused when it is over the policy's cap.
pub open spec fn size_check(path: Seq<char>, len: u64, p: PolicyV) -> Result<(), Seq<char>> {
    if len > p.max_input_bytes {
        Err(path + " is "@ + decimal(len as nat) + " bytes, over the "@ + decimal(p.max_input_bytes as nat) + " byte limit"@)
    } else {
        Ok(())
    }
}

/// Refuse an input file of `len` bytes that is over the input-size cap.
pub fn check_input_size(path: &str, len: u64, policy: &SecurityPolicy) -> (r: Result<(), String>)
    ensures
        match r {
            Ok(()) => size_check(path@, len, policy@) == Ok::<(), Seq<char>>(()),
            Err(e) => size_check(path@, len, policy@) == Err::<(), Seq<char>>(e@),
        },
{
    if policy.input_allowed(len) {
        Ok(())
    } else {
        let mut m = String::from_str(path);
        m.append(" is ");
        let a = decimal_string(len);
        m.append(a.as_str());
        m.append(" bytes, over the ");
        let b = decimal_string(policy.max_input_bytes);
        m.append(b.as_str());
        m.append(" byte limit");
        Err(m)
    }
}

/// What a `--theme` value asks for.
#[derive(Debug)]
pub enum ThemeRequest {
    /// A built-in theme.
    Builtin(Theme),
    /// A theme file to load: the path as given, or else relative to the
    /// document root.
    File(String),
    /// Neither: the error to report.
    Unknown(String),
}

pub enum ThemeRequestV {
    Builtin(ThemeV),
    File(Seq<char>),
    Unknown(Seq<char>),
}

impl View for ThemeRequest {
    type V = ThemeRequestV;

    open spec fn view(&self) -> ThemeRequestV {
        match self {
            ThemeRequest::Builtin(t) => ThemeRequestV::Builtin(t@),
            ThemeRequest::File(p) => ThemeRequestV::File(p@),
            ThemeRequest::Unknown(e) => ThemeRequestV::Unknown(e@),
        }
    }
}

/// A built-in name, else a `.toml` path, else unknown.
pub open spec fn theme_requested(name: Seq<char>) -> ThemeRequestV {
    match builtin_named(name) {
        Some(t) => ThemeRequestV::Builtin(t),
        None => if ends_with(name, ".toml"@) {
            ThemeRequestV::File(name)
        } else {
            ThemeRequestV::Unknown("unknown theme: "@ + name + " (built-ins: default, book; or a .toml file)"@)
        },
    }
}

/// Classify a theme argument: a built-in name, or a path to a `.toml` theme.
pub fn theme_request(name: &str) -> (r: ThemeRequest)
    ensures
        r@ == theme_requested(name@),
{
    match Theme::from_name(name) {
        Some(t) => ThemeRequest::Builtin(t),
        None => {
            if str_ends_with(name, ".toml") {
                ThemeRequest::File(String::from_str(name))
            } else {
                let mut e = owned("unknown theme: ");
                e.append(name);
                e.append(" (built-ins: default, book; or a .toml file)");
                ThemeRequest::Unknown(e)
            }
        },
    }
}

/// The `.toml` theme the config's `[document]` section names, if it names one
/// that is not a built-in.
pub open spec fn config_theme_path(c: Config) -> Option<Seq<char>> {
    match c.document {
        Some(d) => match d.theme {
            Some(t) => if builtin_named(t@) is None && ends_with(t@, ".toml"@) { Some(t@) } else { None },
            None => None,
        },
        None => None,
    }
}

/// The custom theme file named by the config, which the conversion loads.
pub fn config_theme_file(config: &Config) -> (r: Option<String>)
    ensures
        opt_v(r) == config_theme_path(*config),
{
    match &config.document {
        Some(d) => match &d.theme {
            Some(t) => {
                if Theme::from_name(t.as_str()).is_none() && str_ends_with(t.as_str(), ".toml") {
                    Some(t.clone())
                } else {
                    None
                }
            },
            None => None,
        },
        None => None,
    }
}

pub open spec fn strict_policy(root: Seq<char>) -> PolicyV {
    PolicyV { root, allow_remote: false, max_image_bytes: DEFAULT_MAX_IMAGE_BYTES, max_input_bytes: DEFAULT_MAX_INPUT_BYTES }
}

/// The built-in defaults of a conversion rooted at `root`.
pub open spec fn default_options(root: Seq<char>) -> OptionsV {
    OptionsV {
        theme: ThemeV::Default,
        paper: Paper::A4,
        toc: false,
        title: None,
        layout: LayoutV { header: None, footer: None, page_numbers: true },
        security: strict_policy(root),
    }
}

/// The security policy of a conversion: the strict default with the config's
/// `[security]` section applied.
pub open spec fn layered_security(root: Seq<char>, config: Option<Config>) -> PolicyV {
    match config {
        Some(c) => applied_security(c, strict_policy(root)),
        None => strict_policy(root),
    }
}

/// `o` with the command-line flags applied; a flag that was not passed leaves
/// the value, and `--toc` / `--page-numbers` win over their negations.
pub open spec fn flagged(args: ConvertArgs, o: OptionsV) -> OptionsV {
    OptionsV {
        paper: match args.paper {
            Some(p) => paper_of_arg(p),
            None => o.paper,
        },
        toc: if args.toc { true } else if args.no_toc { false } else { o.toc },
        title: if args.title is Some { opt_v(args.title) } else { o.title },
        layout: LayoutV {
            header: if args.header is Some { opt_v(args.header) } else { o.layout.header },
            footer: if args.footer is Some { opt_v(args.footer) } else { o.layout.footer },
            page_numbers: if args.page_numbers { true } else if args.no_page_numbers { false } else { o.layout.page_numbers },
        },
        ..o
    }
}

pub open spec fn with_theme(o: OptionsV, t: Option<ThemeV>) -> OptionsV {
    match t {
        Some(t) => OptionsV { theme: t, ..o },
        None => o,
    }
}

pub open spec fn theme_v(t: Option<Theme>) -> Option<ThemeV> {
    match t {
        Some(t) => Some(t@),
        None => None,
    }
}

/// The options of a conversion: defaults, then the config (its sections, then
/// its custom theme), then the command line (its theme, then its flags).
pub open spec fn layered(
    root: Seq<char>,
    config: Option<Config>,
    config_theme: Option<ThemeV>,
    args: ConvertArgs,
    cli_theme: Option<ThemeV>,
) -> OptionsV {
    let o1 = match config {
        Some(c) => OptionsV { security: layered_security(root, config), ..applied_options(c, default_options(root)) },
        None => default_options(root),
    };
    flagged(args, with_theme(with_theme(o1, config_theme), cli_theme))
}

/// Settle the options of a conversion rooted at `root`. `config_theme` is
/// the theme loaded from the file that [`config_theme_file`] named, and
/// `cli_theme` the one the `--theme` flag resolved to.
pub fn layered_options(
    root: &str,
    config: &Option<Config>,
    config_theme: Option<Theme>,
    args: &ConvertArgs,
    cli_theme: Option<Theme>,
) -> (o: RenderOptions)
    ensures
        o@ == layered(root@, *config, theme_v(config_theme), *args, theme_v(cli_theme)),
{
    let mut security = SecurityPolicy::strict(root);
    let mut opts = RenderOptions {
        theme: Theme::Default,
        paper: Paper::A4,
        toc: false,
        title: None,
        layout: Layout::default(),
        security: security.duplicate(),
    };
    if let Some(cfg) = config {
        cfg.apply_to_security(&mut security);
        cfg.apply_to_render_options(&mut opts);
        opts.security = security;
    }
    if let Some(t) = config_theme {
        opts.theme = t;
    }
    if let Some(t) = cli_theme {
        opts.theme = t;
    }
    if let Some(p) = args.paper {
        opts.paper = Paper::from(p);
    }
    if args.toc {
        opts.toc = true;
    } else if args.no_toc {
        opts.toc = false;
    }
    if args.title.is_some() {
        opts.title = clone_opt(&args.title);
    }
    if args.header.is_some() {
        opts.layout.header = clone_opt(&args.header);
    }
    if args.footer.is_some() {
        opts.layout.footer = clone_opt(&args.footer);
    }
    if args.page_numbers {
        opts.layout.page_numbers = true;
    } else if args.no_page_numbers {
        opts.layout.page_numbers = false;
    }
    opts
}

/// The extension of each output of a directory conversion, or the refusal
/// to stream a directory conversion to standard output.
pub open spec fn dir_outputs(output: Option<Seq<char>>, format: Option<FormatArg>) -> Result<Seq<char>, Seq<char>> {
    if output == Some("-"@) {
        Err(NO_DIRECTORY_STREAM@)
    } else {
        Ok(extension_of(match format {
            Some(f) => format_of_arg(f),
            None => OutputFormat::Pdf,
        }))
    }
}

/// Check a directory conversion and give the extension of its outputs.
pub fn dir_extension(args: &ConvertArgs) -> (r: Result<&'static str, String>)
    ensures
        match r {
            Ok(e) => dir_outputs(opt_v(args.output), args.format) == Ok::<Seq<char>, Seq<char>>(e@),
            Err(e) => dir_outputs(opt_v(args.output), args.format) == Err::<Seq<char>, Seq<char>>(e@),
        },
{
    if let Some(o) = &args.output {
        if same(o.as_str(), "-") {
            return Err(owned(NO_DIRECTORY_STREAM));
        }
    }
    let f = match args.format {
        Some(a) => OutputFormat::from(a),
        None => OutputFormat::Pdf,
    };
    Ok(f.extension())
}

/// What a directory walk does with one entry.
#[derive(PartialEq, Eq, Structural, Clone, Copy, Debug)]
pub enum Entry {
    Skip,
    Descend,
    Take,
}

/// Dot-entries are skipped, directories descended into, and files kept when
/// their extension is `md` or `markdown`.
pub open spec fn entry_kind(name: Seq<char>, is_dir: bool, ext: Option<Seq<char>>) -> Entry {
    if starts_with(name, "."@) {
        Entry::Skip
    } else if is_dir {
        Entry::Descend
    } else if ext == Some("md"@) || ext == Some("markdown"@) {
        Entry::Take
    } else {
        Entry::Skip
    }
}

/// Classify one directory entry by its file name, kind and extension.
pub fn classify_entry(name: &str, is_dir: bool, ext: Option<&str>) -> (k: Entry)
    ensures
        k == entry_kind(name@, is_dir, match ext { Some(e) => Some(e@), None => None }),
{
    if str_starts_with(name, ".") {
        Entry::Skip
    } else if is_dir {
        Entry::Descend
    } else {
        match ext {
            Some(e) => if same(e, "md") || same(e, "markdown") { Entry::Take } else { Entry::Skip },
            None => Entry::Skip,
        }
    }
}

/// The outcome of a directory conversion of `total` files, `failures` of
/// which failed.
pub open spec fn dir_outcome(failures: nat, total: nat) -> Result<Seq<char>, Seq<char>> {
    if failures > 0 {
        Err(decimal(failures) + " of "@ + decimal(total) + " file(s) failed"@)
    } else {
        Ok("converted "@ + decimal(total) + " file(s)"@)
    }
}

/// Whether a directory conversion has anything to do: refused, naming the
/// directory, where no Markdown file was found under it.
pub fn batch_found(dir: &str, count: u64) -> (r: Result<(), String>)
    ensures
        match r {
            Ok(()) => count > 0,
            Err(e) => count == 0 && e@ == "no Markdown files found under "@ + dir@,
        },
{
    if count == 0 {
        let mut m = owned("no Markdown files found under ");
        m.append(dir);
        Err(m)
    } else {
        Ok(())
    }
}

/// Summarize a directory conversion.
pub fn dir_summary(failures: u64, total: u64) -> (r: Result<String, String>)
    ensures
        match r {
            Ok(m) => dir_outcome(failures as nat, total as nat) == Ok::<Seq<char>, Seq<char>>(m@),
            Err(m) => dir_outcome(failures as nat, total as nat) == Err::<Seq<char>, Seq<char>>(m@),
        },
{
    let n = decimal_string(total);
    if failures > 0 {
        let mut m = decimal_string(failures);
        m.append(" of ");
        m.append(n.as_str());
        m.append(" file(s) failed");
        Err(m)
    } else {
        let mut m = owned("converted ");
        m.append(n.as_str());
        m.append(" file(s)");
        Ok(m)
    }
}

/// A command-line flag that was passed decides its field, whatever the
/// config file and the themes say.
pub proof fn law_flags_win(
    root: Seq<char>,
    config: Option<Config>,
    config_theme: Option<ThemeV>,
    args: ConvertArgs,
    cli_theme: Option<ThemeV>,
)
    ensures
        ({
            let o = layered(root, config, config_theme, args, cli_theme);
            &&& cli_theme matches Some(t) ==> o.theme == t
            &&& args.paper matches Some(p) ==> o.paper == paper_of_arg(p)
            &&& args.toc ==> o.toc
            &&& !args.toc && args.no_toc ==> !o.toc
            &&& args.title is Some ==> o.title == opt_v(args.title)
            &&& args.header is Some ==> o.layout.header == opt_v(args.header)
            &&& args.footer is Some ==> o.layout.footer == opt_v(args.footer)
            &&& args.page_numbers ==> o.layout.page_numbers
            &&& !args.page_numbers && args.no_page_numbers ==> !o.layout.page_numbers
        }),
{
}

/// Where no flag is passed, the config file's value survives: in particular
/// `toc = true` in the config gives a table of contents.
pub proof fn law_config_survives(root: Seq<char>, c: Config, args: ConvertArgs)
    requires
        !args.toc,
        !args.no_toc,
        args.paper is None,
        args.title is None,
        !args.page_numbers,
        !args.no_page_numbers,
    ensures
        ({
            let o = layered(root, Some(c), None, args, None);
            let a = applied_options(c, default_options(root));
            &&& o.toc == a.toc
            &&& o.paper == a.paper
            &&& o.title == a.title
            &&& o.layout.page_numbers == a.layout.page_numbers
            &&& o.security == applied_security(c, strict_policy(root))
        }),
        c.document matches Some(d) && d.toc == Some(true) ==> layered(root, Some(c), None, args, None).toc,
{
}

/// With no config file, no theme and no flag, a conversion uses the built-in
/// defaults: the default theme on A4, no table of contents, page numbers on,
/// and the strict security policy rooted at the document's directory.
pub proof fn law_defaults(root: Seq<char>, args: ConvertArgs)
    requires
        !args.toc,
        !args.no_toc,
        args.paper is None,
        args.title is None,
        args.header is None,
        args.footer is None,
        !args.page_numbers,
        !args.no_page_numbers,
    ensures
        layered(root, None, None, args, None) == default_options(root),
{
}

/// The format of a file's extension is read back from that extension.
pub proof fn law_extension_round_trip(f: OutputFormat)
    ensures
        format_for_extension(extension_of(f)) == Some(f),
        chosen_format(None, Some(extension_of(f))) == f,
{
    reveal_strlit("pdf");
    reveal_strlit("typ");
    reveal_strlit("typst");
    reveal_strlit("html");
    reveal_strlit("htm");
    reveal_strlit("docx");
    let e = extension_of(f);
    crate::text::lemma_ascii_lower_id(e);
    assert("pdf"@[0] == 'p' && "typ"@[0] == 't' && "typst"@[0] == 't' && "html"@[0] == 'h');
    assert("htm"@.len() == 3 && "html"@.len() == 4 && "typ"@.len() == 3 && "typst"@.len() == 5);
    match f {
        OutputFormat::Pdf => {},
        OutputFormat::Typst => {
            assert(e[0] != "pdf"@[0]);
        },
        OutputFormat::Html => {
            assert(e[0] != "pdf"@[0]);
            assert(e[0] != "typ"@[0] && e[0] != "typst"@[0]);
        },
        OutputFormat::Docx => {
            assert(e[0] != "pdf"@[0]);
            assert(e[0] != "typ"@[0] && e[0] != "typst"@[0]);
            assert(e[0] != "html"@[0] && e[0] != "htm"@[0]);
        },
    }
}

} // verus!
