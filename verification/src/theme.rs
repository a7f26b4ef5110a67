//! Themes as data.
//!
//! A [`ThemeSpec`] is a flat bag of typographic settings. The built-in themes
//! are constructed here; custom themes start from a built-in `base` and
//! override individual fields ([`ThemeSpec::from_overrides`]). Numeric settings
//! are kept as the decimal text that the back-ends write out.

use vstd::prelude::*;
use crate::ir::opt_v;
use crate::text::{chars_of, owned, push_char, same};

verus! {

/// A visual theme: one of the built-ins, or a custom spec.
#[derive(Debug, PartialEq)]
pub enum Theme {
    Default,
    Book,
    Custom(Box<ThemeSpec>),
}

/// Concrete, renderer-facing description of a theme's typography.
#[derive(Debug, PartialEq)]
pub struct ThemeSpec {
    pub name: String,
    pub body_font: String,
    pub mono_font: String,
    /// Body text size in points, as decimal text (e.g. `11`, `12.5`).
    pub body_size_pt: String,
    pub heading_color: String,
    pub link_color: String,
    pub accent_color: String,
    pub code_fill: String,
    pub code_stroke: Option<String>,
    /// Horizontal page margin in centimetres, as decimal text.
    pub margin_x_cm: String,
    /// Vertical page margin in centimetres, as decimal text.
    pub margin_y_cm: String,
    pub justify: bool,
    /// First-line paragraph indent in em, as decimal text.
    pub first_line_indent_em: String,
}

/// The fields a custom theme file may set: a built-in `base` plus overrides.
#[derive(Debug)]
pub struct ThemeOverrides {
    pub base: Option<String>,
    pub body_font: Option<String>,
    pub mono_font: Option<String>,
    pub body_size_pt: Option<String>,
    pub heading_color: Option<String>,
    pub link_color: Option<String>,
    pub accent_color: Option<String>,
    pub code_fill: Option<String>,
    pub code_stroke: Option<String>,
    pub margin_x_cm: Option<String>,
    pub margin_y_cm: Option<String>,
    pub justify: Option<bool>,
    pub first_line_indent_em: Option<String>,
}

pub struct ThemeSpecV {
    pub name: Seq<char>,
    pub body_font: Seq<char>,
    pub mono_font: Seq<char>,
    pub body_size_pt: Seq<char>,
    pub heading_color: Seq<char>,
    pub link_color: Seq<char>,
    pub accent_color: Seq<char>,
    pub code_fill: Seq<char>,
    pub code_stroke: Option<Seq<char>>,
    pub margin_x_cm: Seq<char>,
    pub margin_y_cm: Seq<char>,
    pub justify: bool,
    pub first_line_indent_em: Seq<char>,
}

pub enum ThemeV {
    Default,
    Book,
    Custom(ThemeSpecV),
}

pub struct OverridesV {
    pub base: Option<Seq<char>>,
    pub body_font: Option<Seq<char>>,
    pub mono_font: Option<Seq<char>>,
    pub body_size_pt: Option<Seq<char>>,
    pub heading_color: Option<Seq<char>>,
    pub link_color: Option<Seq<char>>,
    pub accent_color: Option<Seq<char>>,
    pub code_fill: Option<Seq<char>>,
    pub code_stroke: Option<Seq<char>>,
    pub margin_x_cm: Option<Seq<char>>,
    pub margin_y_cm: Option<Seq<char>>,
    pub justify: Option<bool>,
    pub first_line_indent_em: Option<Seq<char>>,
}

impl View for ThemeSpec {
    type V = ThemeSpecV;

    open spec fn view(&self) -> ThemeSpecV {
        ThemeSpecV {
            name: self.name@,
            body_font: self.body_font@,
            mono_font: self.mono_font@,
            body_size_pt: self.body_size_pt@,
            heading_color: self.heading_color@,
            link_color: self.link_color@,
            accent_color: self.accent_color@,
            code_fill: self.code_fill@,
            code_stroke: opt_v(self.code_stroke),
            margin_x_cm: self.margin_x_cm@,
            margin_y_cm: self.margin_y_cm@,
            justify: self.justify,
            first_line_indent_em: self.first_line_indent_em@,
        }
    }
}

impl View for Theme {
    type V = ThemeV;

    open spec fn view(&self) -> ThemeV {
        match self {
            Theme::Default => ThemeV::Default,
            Theme::Book => ThemeV::Book,
            Theme::Custom(s) => ThemeV::Custom(s@),
        }
    }
}

impl View for ThemeOverrides {
    type V = OverridesV;

    open spec fn view(&self) -> OverridesV {
        OverridesV {
            base: opt_v(self.base),
            body_font: opt_v(self.body_font),
            mono_font: opt_v(self.mono_font),
            body_size_pt: opt_v(self.body_size_pt),
            heading_color: opt_v(self.heading_color),
            link_color: opt_v(self.link_color),
            accent_color: opt_v(self.accent_color),
            code_fill: opt_v(self.code_fill),
            code_stroke: opt_v(self.code_stroke),
            margin_x_cm: opt_v(self.margin_x_cm),
            margin_y_cm: opt_v(self.margin_y_cm),
            justify: self.justify,
            first_line_indent_em: opt_v(self.first_line_indent_em),
        }
    }
}

/// The name a theme is known by.
pub open spec fn theme_name(t: ThemeV) -> Seq<char> {
    match t {
        ThemeV::Default => "default"@,
        ThemeV::Book => "book"@,
        ThemeV::Custom(s) => s.name,
    }
}

/// The built-in theme called `name`, if any.
pub open spec fn builtin_named(name: Seq<char>) -> Option<ThemeV> {
    if name == "default"@ {
        Some(ThemeV::Default)
    } else if name == "book"@ {
        Some(ThemeV::Book)
    } else {
        None
    }
}

pub open spec fn default_spec() -> ThemeSpecV {
    ThemeSpecV {
        name: "default"@,
        body_font: "Libertinus Serif"@,
        mono_font: "DejaVu Sans Mono"@,
        body_size_pt: "11"@,
        heading_color: "#13315c"@,
        link_color: "#1565c0"@,
        accent_color: "#13315c"@,
        code_fill: "#f4f6f8"@,
        code_stroke: Some("#e1e4e8"@),
        margin_x_cm: "2.2"@,
        margin_y_cm: "2.4"@,
        justify: true,
        first_line_indent_em: "0"@,
    }
}

pub open spec fn book_spec() -> ThemeSpecV {
    ThemeSpecV {
        name: "book"@,
        body_font: "New Computer Modern"@,
        mono_font: "DejaVu Sans Mono"@,
        body_size_pt: "11"@,
        heading_color: "#5a1e1e"@,
        link_color: "#8a2b2b"@,
        accent_color: "#5a1e1e"@,
        code_fill: "#f5f5f5"@,
        code_stroke: None,
        margin_x_cm: "2.6"@,
        margin_y_cm: "2.8"@,
        justify: true,
        first_line_indent_em: "1.2"@,
    }
}

/// The concrete typography of a theme.
pub open spec fn spec_of(t: ThemeV) -> ThemeSpecV {
    match t {
        ThemeV::Default => default_spec(),
        ThemeV::Book => book_spec(),
        ThemeV::Custom(s) => s,
    }
}

/// `Debug` formatting of a string: quoted, with special characters escaped.
pub uninterp spec fn debug_quoted(s: Seq<char>) -> Seq<char>;

/// `format!("{:?}", s)` for a string slice: the string in double quotes with
/// `\`, `"` and non-printable characters escaped, as std's `Debug` for `str`.
#[verifier::external_body]
fn debug_str(s: &str) -> (r: String)
    ensures
        r@ == debug_quoted(s@),
{
    format!("{s:?}")
}

pub open spec fn is_hex_digit(c: char) -> bool {
    ('0' <= c <= '9') || ('a' <= c <= 'f') || ('A' <= c <= 'F')
}

/// The digits of a color: `v` without one leading `#`.
pub open spec fn color_digits(v: Seq<char>) -> Seq<char> {
    if v.len() > 0 && v[0] == '#' { v.drop_first() } else { v }
}

/// A color is accepted when it is 3, 4, 6 or 8 hex digits, with or without a
/// leading `#`; it comes back with the `#`.
pub open spec fn color_result(v: Seq<char>) -> Result<Seq<char>, Seq<char>> {
    let hex = color_digits(v);
    if (hex.len() == 3 || hex.len() == 4 || hex.len() == 6 || hex.len() == 8)
        && (forall|i: int| 0 <= i < hex.len() ==> is_hex_digit(#[trigger] hex[i])) {
        Ok(if v.len() > 0 && v[0] == '#' { v } else { seq!['#'] + v })
    } else {
        Err("invalid color "@ + debug_quoted(v) + " (expected hex like \"#1a2b3c\")"@)
    }
}

/// Accept only hex colors, since they are interpolated into `rgb("…")` calls.
pub fn validated_color(v: String) -> (r: Result<String, String>)
    ensures
        match r {
            Ok(c) => color_result(v@) == Ok::<Seq<char>, Seq<char>>(c@),
            Err(e) => color_result(v@) == Err::<Seq<char>, Seq<char>>(e@),
        },
{
    let cs = chars_of(v.as_str());
    let start: usize = if cs.len() > 0 && cs[0] == '#' { 1 } else { 0 };
    let n = cs.len() - start;
    let ghost hex = color_digits(v@);
    assert(hex =~= cs@.skip(start as int));
    let mut ok = n == 3 || n == 4 || n == 6 || n == 8;
    let mut i = start;
    while ok && i < cs.len()
        invariant
            start <= i <= cs@.len(),
            cs@ == v@,
            hex == cs@.skip(start as int),
            ok ==> forall|j: int| start <= j < i ==> is_hex_digit(#[trigger] cs@[j]),
            ok ==> (hex.len() == 3 || hex.len() == 4 || hex.len() == 6 || hex.len() == 8),
            start == 1 <==> (v@.len() > 0 && v@[0] == '#'),
            !ok ==> !(hex.len() == 3 || hex.len() == 4 || hex.len() == 6 || hex.len() == 8)
                || exists|j: int| 0 <= j < hex.len() && !is_hex_digit(#[trigger] hex[j]),
        decreases cs.len() - i,
    {
        let c = cs[i];
        if !(('0' <= c && c <= '9') || ('a' <= c && c <= 'f') || ('A' <= c && c <= 'F')) {
            assert(hex[i - start] == c);
            ok = false;
        }
        i = i + 1;
    }
    if ok {
        assert forall|j: int| 0 <= j < hex.len() implies is_hex_digit(#[trigger] hex[j]) by {
            assert(hex[j] == cs@[start + j]);
        }
        if start == 1 {
            Ok(v)
        } else {
            let mut r = String::new();
            push_char(&mut r, '#');
            r.append(v.as_str());
            assert(r@ =~= seq!['#'] + v@);
            Ok(r)
        }
    } else {
        let mut e = owned("invalid color ");
        let d = debug_str(v.as_str());
        e.append(d.as_str());
        e.append(" (expected hex like \"#1a2b3c\")");
        Err(e)
    }
}

fn or_keep(o: Option<String>, d: String) -> (r: String)
    ensures
        r@ == opt_or(opt_v(o), d@),
{
    match o {
        Some(v) => v,
        None => d,
    }
}

/// Validate an optional color override.
fn checked_color(o: Option<String>) -> (r: Result<Option<String>, String>)
    ensures
        match r {
            Ok(c) => color_err(opt_v(o)) is None && opt_v(c) == match opt_v(o) {
                Some(v) => Some(color_result(v)->Ok_0),
                None => None,
            },
            Err(e) => color_err(opt_v(o)) == Some(e@),
        },
{
    match o {
        Some(v) => match validated_color(v) {
            Ok(c) => Ok(Some(c)),
            Err(e) => Err(e),
        },
        None => Ok(None),
    }
}

pub fn clone_opt(o: &Option<String>) -> (r: Option<String>)
    ensures
        opt_v(r) == opt_v(*o),
{
    match o {
        Some(s) => Some(s.clone()),
        None => None,
    }
}

impl ThemeSpec {
    pub fn duplicate(&self) -> (r: ThemeSpec)
        ensures
            r@ == self@,
    {
        ThemeSpec {
            name: self.name.clone(),
            body_font: self.body_font.clone(),
            mono_font: self.mono_font.clone(),
            body_size_pt: self.body_size_pt.clone(),
            heading_color: self.heading_color.clone(),
            link_color: self.link_color.clone(),
            accent_color: self.accent_color.clone(),
            code_fill: self.code_fill.clone(),
            code_stroke: clone_opt(&self.code_stroke),
            margin_x_cm: self.margin_x_cm.clone(),
            margin_y_cm: self.margin_y_cm.clone(),
            justify: self.justify,
            first_line_indent_em: self.first_line_indent_em.clone(),
        }
    }

    /// Build a custom theme: start from the built-in named by `o.base`
    /// (default: `"default"`), rename it to `name`, then apply every override;
    /// colors must pass [`validated_color`].
    pub fn from_overrides(o: ThemeOverrides, name: &str) -> (r: Result<ThemeSpec, String>)
        ensures
            match r {
                Ok(s) => overrides_result(o@, name@) == Ok::<ThemeSpecV, Seq<char>>(s@),
                Err(e) => overrides_result(o@, name@) == Err::<ThemeSpecV, Seq<char>>(e@),
            },
    {
        let base_name = match &o.base {
            Some(b) => b.clone(),
            None => owned("default"),
        };
        let base = match Theme::from_name(base_name.as_str()) {
            Some(t) => t,
            None => {
                let mut e = owned("unknown base theme: ");
                e.append(base_name.as_str());
                return Err(e);
            },
        };
        let b = base.spec();
        let heading = checked_color(o.heading_color)?;
        let link = checked_color(o.link_color)?;
        let accent = checked_color(o.accent_color)?;
        let fill = checked_color(o.code_fill)?;
        let stroke = checked_color(o.code_stroke)?;
        Ok(ThemeSpec {
            name: String::from_str(name),
            body_font: or_keep(o.body_font, b.body_font),
            mono_font: or_keep(o.mono_font, b.mono_font),
            body_size_pt: or_keep(o.body_size_pt, b.body_size_pt),
            heading_color: or_keep(heading, b.heading_color),
            link_color: or_keep(link, b.link_color),
            accent_color: or_keep(accent, b.accent_color),
            code_fill: or_keep(fill, b.code_fill),
            code_stroke: match stroke {
                Some(c) => Some(c),
                None => b.code_stroke,
            },
            margin_x_cm: or_keep(o.margin_x_cm, b.margin_x_cm),
            margin_y_cm: or_keep(o.margin_y_cm, b.margin_y_cm),
            justify: match o.justify {
                Some(v) => v,
                None => b.justify,
            },
            first_line_indent_em: or_keep(o.first_line_indent_em, b.first_line_indent_em),
        })
    }

    /// A starter theme file: every field shown, all but `base` commented out.
    pub fn sample() -> (s: &'static str)
        ensures
            s@ == THEME_SAMPLE@,
    {
        THEME_SAMPLE
    }
}

pub const THEME_SAMPLE: &'static str = "# md2pdf custom theme. All fields are optional and override the base.\nbase = \"default\"   # or \"book\"\n\n# body_font = \"Libertinus Serif\"\n# mono_font = \"DejaVu Sans Mono\"\n# body_size_pt = 11.0\n# heading_color = \"#13315c\"\n# link_color = \"#1565c0\"\n# accent_color = \"#13315c\"\n# code_fill = \"#f4f6f8\"\n# code_stroke = \"#e1e4e8\"\n# margin_x_cm = 2.2\n# margin_y_cm = 2.4\n# justify = true\n# first_line_indent_em = 0.0\n";

pub open spec fn opt_or<T>(o: Option<T>, d: T) -> T {
    match o {
        Some(v) => v,
        None => d,
    }
}

/// Overrides that need no validation, applied to `s`.
pub open spec fn plain_overrides(s: ThemeSpecV, o: OverridesV) -> ThemeSpecV {
    ThemeSpecV {
        body_font: opt_or(o.body_font, s.body_font),
        mono_font: opt_or(o.mono_font, s.mono_font),
        body_size_pt: opt_or(o.body_size_pt, s.body_size_pt),
        margin_x_cm: opt_or(o.margin_x_cm, s.margin_x_cm),
        margin_y_cm: opt_or(o.margin_y_cm, s.margin_y_cm),
        justify: opt_or(o.justify, s.justify),
        first_line_indent_em: opt_or(o.first_line_indent_em, s.first_line_indent_em),
        ..s
    }
}

/// The refusal of one color override, if it is refused.
pub open spec fn color_err(o: Option<Seq<char>>) -> Option<Seq<char>> {
    match o {
        Some(c) => match color_result(c) {
            Err(e) => Some(e),
            Ok(_) => None,
        },
        None => None,
    }
}

/// The first refused color among the color overrides, in field order.
pub open spec fn first_bad_color(o: OverridesV) -> Option<Seq<char>> {
    if color_err(o.heading_color) is Some {
        color_err(o.heading_color)
    } else if color_err(o.link_color) is Some {
        color_err(o.link_color)
    } else if color_err(o.accent_color) is Some {
        color_err(o.accent_color)
    } else if color_err(o.code_fill) is Some {
        color_err(o.code_fill)
    } else {
        color_err(o.code_stroke)
    }
}

pub open spec fn color_or(o: Option<Seq<char>>, d: Seq<char>) -> Seq<char> {
    match o {
        Some(c) => color_result(c)->Ok_0,
        None => d,
    }
}

/// The custom theme `o` describes, named `name`, or the error it is refused with.
pub open spec fn overrides_result(o: OverridesV, name: Seq<char>) -> Result<ThemeSpecV, Seq<char>> {
    let base_name = opt_or(o.base, "default"@);
    match builtin_named(base_name) {
        None => Err("unknown base theme: "@ + base_name),
        Some(base) => match first_bad_color(o) {
            Some(e) => Err(e),
            None => {
                let s = plain_overrides(ThemeSpecV { name, ..spec_of(base) }, o);
                Ok(ThemeSpecV {
                    heading_color: color_or(o.heading_color, s.heading_color),
                    link_color: color_or(o.link_color, s.link_color),
                    accent_color: color_or(o.accent_color, s.accent_color),
                    code_fill: color_or(o.code_fill, s.code_fill),
                    code_stroke: match o.code_stroke {
                        Some(c) => Some(color_result(c)->Ok_0),
                        None => s.code_stroke,
                    },
                    ..s
                })
            },
        },
    }
}

impl Theme {
    /// The name a theme is known by.
    pub fn name(&self) -> (n: &str)
        ensures
            n@ == theme_name(self@),
    {
        match self {
            Theme::Default => "default",
            Theme::Book => "book",
            Theme::Custom(spec) => spec.name.as_str(),
        }
    }

    /// A one-line description for theme listings.
    pub fn description(&self) -> (d: &str)
        ensures
            d@ == match self@ {
                ThemeV::Default => "Clean serif body with blue heading accents"@,
                ThemeV::Book => "Classic book look set in New Computer Modern"@,
                ThemeV::Custom(_) => "Custom theme loaded from TOML"@,
            },
    {
        match self {
            Theme::Default => "Clean serif body with blue heading accents",
            Theme::Book => "Classic book look set in New Computer Modern",
            Theme::Custom(_) => "Custom theme loaded from TOML",
        }
    }

    /// The built-in themes, in listing order.
    pub fn builtin() -> (b: [Theme; 2])
        ensures
            b@[0]@ == ThemeV::Default,
            b@[1]@ == ThemeV::Book,
    {
        [Theme::Default, Theme::Book]
    }

    /// Look up a built-in theme by name.
    pub fn from_name(name: &str) -> (t: Option<Theme>)
        ensures
            match t {
                Some(t) => builtin_named(name@) == Some(t@),
                None => builtin_named(name@) is None,
            },
    {
        if same(name, "default") {
            Some(Theme::Default)
        } else if same(name, "book") {
            Some(Theme::Book)
        } else {
            None
        }
    }

    /// The concrete typography of this theme.
    pub fn spec(&self) -> (s: ThemeSpec)
        ensures
            s@ == spec_of(self@),
    {
        match self {
            Theme::Default => ThemeSpec {
                name: owned("default"),
                body_font: owned("Libertinus Serif"),
                mono_font: owned("DejaVu Sans Mono"),
                body_size_pt: owned("11"),
                heading_color: owned("#13315c"),
                link_color: owned("#1565c0"),
                accent_color: owned("#13315c"),
                code_fill: owned("#f4f6f8"),
                code_stroke: Some(owned("#e1e4e8")),
                margin_x_cm: owned("2.2"),
                margin_y_cm: owned("2.4"),
                justify: true,
                first_line_indent_em: owned("0"),
            },
            Theme::Book => ThemeSpec {
                name: owned("book"),
                body_font: owned("New Computer Modern"),
                mono_font: owned("DejaVu Sans Mono"),
                body_size_pt: owned("11"),
                heading_color: owned("#5a1e1e"),
                link_color: owned("#8a2b2b"),
                accent_color: owned("#5a1e1e"),
                code_fill: owned("#f5f5f5"),
                code_stroke: None,
                margin_x_cm: owned("2.6"),
                margin_y_cm: owned("2.8"),
                justify: true,
                first_line_indent_em: owned("1.2"),
            },
            Theme::Custom(spec) => spec.duplicate(),
        }
    }

    pub fn duplicate(&self) -> (t: Theme)
        ensures
            t@ == self@,
    {
        match self {
            Theme::Default => Theme::Default,
            Theme::Book => Theme::Book,
            Theme::Custom(s) => Theme::Custom(Box::new(s.duplicate())),
        }
    }
}

/// A color that validation accepts as it stands.
pub open spec fn settled_color(c: Seq<char>) -> bool {
    color_result(c) == Ok::<Seq<char>, Seq<char>>(c)
}

/// Whatever validation accepts, it accepts again unchanged.
proof fn lemma_color_settles(v: Seq<char>)
    requires
        color_result(v) is Ok,
    ensures
        settled_color(color_result(v)->Ok_0),
{
    let c = color_result(v)->Ok_0;
    if !(v.len() > 0 && v[0] == '#') {
        assert(c == seq!['#'] + v);
        assert(color_digits(c) =~= v);
        assert(color_digits(v) == v);
    }
}

proof fn lemma_hex6(c: Seq<char>)
    requires
        c.len() == 7,
        c[0] == '#',
        forall|i: int| 1 <= i < 7 ==> is_hex_digit(#[trigger] c[i]),
    ensures
        settled_color(c),
{
    let hex = color_digits(c);
    assert(hex =~= c.drop_first());
    assert forall|i: int| 0 <= i < hex.len() implies is_hex_digit(#[trigger] hex[i]) by {
        assert(hex[i] == c[i + 1]);
    }
}

/// The colors of the built-in themes pass validation unchanged.
proof fn lemma_builtin_colors(t: ThemeV)
    requires
        t is Default || t is Book,
    ensures
        settled_color(spec_of(t).heading_color),
        settled_color(spec_of(t).link_color),
        settled_color(spec_of(t).accent_color),
        settled_color(spec_of(t).code_fill),
        spec_of(t).code_stroke matches Some(c) ==> settled_color(c),
{
    reveal_strlit("#13315c");
    reveal_strlit("#1565c0");
    reveal_strlit("#f4f6f8");
    reveal_strlit("#e1e4e8");
    reveal_strlit("#5a1e1e");
    reveal_strlit("#8a2b2b");
    reveal_strlit("#f5f5f5");
    lemma_hex6("#13315c"@);
    lemma_hex6("#1565c0"@);
    lemma_hex6("#f4f6f8"@);
    lemma_hex6("#e1e4e8"@);
    lemma_hex6("#5a1e1e"@);
    lemma_hex6("#8a2b2b"@);
    lemma_hex6("#f5f5f5"@);
}

/// Every color of a custom theme is a hex color that validation accepts
/// unchanged: nothing but hex reaches the `rgb("…")` calls of the back-ends.
pub proof fn law_custom_colors_are_hex(o: OverridesV, name: Seq<char>)
    ensures
        overrides_result(o, name) matches Ok(s) ==> {
            &&& settled_color(s.heading_color)
            &&& settled_color(s.link_color)
            &&& settled_color(s.accent_color)
            &&& settled_color(s.code_fill)
            &&& s.code_stroke matches Some(c) ==> settled_color(c)
        },
{
    let base_name = opt_or(o.base, "default"@);
    match builtin_named(base_name) {
        Some(base) => {
            if first_bad_color(o) is None {
                reveal_strlit("default");
                reveal_strlit("book");
                lemma_builtin_colors(base);
                if let Some(c) = o.heading_color { lemma_color_settles(c); }
                if let Some(c) = o.link_color { lemma_color_settles(c); }
                if let Some(c) = o.accent_color { lemma_color_settles(c); }
                if let Some(c) = o.code_fill { lemma_color_settles(c); }
                if let Some(c) = o.code_stroke { lemma_color_settles(c); }
            }
        },
        None => {},
    }
}

/// A custom theme that overrides nothing is its base theme under the new
/// name; with no base given, the base is `default`.
pub proof fn law_custom_inherits_base(o: OverridesV, name: Seq<char>)
    requires
        o.body_font is None,
        o.mono_font is None,
        o.body_size_pt is None,
        o.heading_color is None,
        o.link_color is None,
        o.accent_color is None,
        o.code_fill is None,
        o.code_stroke is None,
        o.margin_x_cm is None,
        o.margin_y_cm is None,
        o.justify is None,
        o.first_line_indent_em is None,
    ensures
        builtin_named(opt_or(o.base, "default"@)) matches Some(t) ==> overrides_result(o, name)
            == Ok::<ThemeSpecV, Seq<char>>(ThemeSpecV { name, ..spec_of(t) }),
        builtin_named(opt_or(o.base, "default"@)) is None ==> overrides_result(o, name)
            == Err::<ThemeSpecV, Seq<char>>("unknown base theme: "@ + opt_or(o.base, "default"@)),
{
}

/// A custom theme takes every override it is given: where the overrides are
/// accepted, each field that is set appears in the theme as given (a color
/// as the accepted color, with its `#`), and the theme has the given name.
pub proof fn law_overrides_applied(o: OverridesV, name: Seq<char>)
    ensures
        overrides_result(o, name) matches Ok(s) ==> {
            &&& s.name == name
            &&& (o.body_font is Some ==> s.body_font == o.body_font->Some_0)
            &&& (o.mono_font is Some ==> s.mono_font == o.mono_font->Some_0)
            &&& (o.body_size_pt is Some ==> s.body_size_pt == o.body_size_pt->Some_0)
            &&& (o.margin_x_cm is Some ==> s.margin_x_cm == o.margin_x_cm->Some_0)
            &&& (o.margin_y_cm is Some ==> s.margin_y_cm == o.margin_y_cm->Some_0)
            &&& (o.justify is Some ==> s.justify == o.justify->Some_0)
            &&& (o.first_line_indent_em is Some ==> s.first_line_indent_em == o.first_line_indent_em->Some_0)
            &&& (o.heading_color is Some ==> color_result(o.heading_color->Some_0) == Ok::<Seq<char>, Seq<char>>(s.heading_color))
            &&& (o.link_color is Some ==> color_result(o.link_color->Some_0) == Ok::<Seq<char>, Seq<char>>(s.link_color))
            &&& (o.accent_color is Some ==> color_result(o.accent_color->Some_0) == Ok::<Seq<char>, Seq<char>>(s.accent_color))
            &&& (o.code_fill is Some ==> color_result(o.code_fill->Some_0) == Ok::<Seq<char>, Seq<char>>(s.code_fill))
            &&& (o.code_stroke is Some ==> s.code_stroke is Some
                && color_result(o.code_stroke->Some_0) == Ok::<Seq<char>, Seq<char>>(s.code_stroke->Some_0))
        },
{
}

/// A custom theme keeps its base for whatever it does not override: each
/// field left unset has the base theme's value.
pub proof fn law_unset_from_base(o: OverridesV, name: Seq<char>)
    ensures
        overrides_result(o, name) matches Ok(s) ==> builtin_named(opt_or(o.base, "default"@)) matches Some(t) && {
            let b = spec_of(t);
            &&& (o.body_font is None ==> s.body_font == b.body_font)
            &&& (o.mono_font is None ==> s.mono_font == b.mono_font)
            &&& (o.body_size_pt is None ==> s.body_size_pt == b.body_size_pt)
            &&& (o.margin_x_cm is None ==> s.margin_x_cm == b.margin_x_cm)
            &&& (o.margin_y_cm is None ==> s.margin_y_cm == b.margin_y_cm)
            &&& (o.justify is None ==> s.justify == b.justify)
            &&& (o.first_line_indent_em is None ==> s.first_line_indent_em == b.first_line_indent_em)
            &&& (o.heading_color is None ==> s.heading_color == b.heading_color)
            &&& (o.link_color is None ==> s.link_color == b.link_color)
            &&& (o.accent_color is None ==> s.accent_color == b.accent_color)
            &&& (o.code_fill is None ==> s.code_fill == b.code_fill)
            &&& (o.code_stroke is None ==> s.code_stroke == b.code_stroke)
        },
{
}

/// A built-in theme is found again by its name.
pub proof fn law_builtin_name_round_trip(t: ThemeV)
    requires
        t is Default || t is Book,
    ensures
        builtin_named(theme_name(t)) == Some(t),
{
    reveal_strlit("default");
    reveal_strlit("book");
    assert("default"@ != "book"@) by {
        assert("default"@.len() != "book"@.len());
    }
}

} // verus!
