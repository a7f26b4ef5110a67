//! The HTML back-end: lowers the document model to one self-contained HTML
//! page with the theme's typography inlined as CSS.
//!
//! Same security posture as the Typst back-end: raw HTML is dropped, remote
//! images are never referenced, local images must pass the policy. All
//! document text is entity-escaped.

use vstd::prelude::*;
use crate::ir::{blocks_v, cells_v, defs_v, inline_text, inlines_v, items_v, lemma_blocks_v, Meta, lemma_blocks_v_step, lemma_cells_v, lemma_cells_v_step, lemma_defs_v_step, lemma_inlines_v_step, lemma_items_v_step, lemma_rows_v_step, opt_v, plain_inlines, rows_v, title_of, AdmonitionKind, Align, Block, BlockV, DefV, DefinitionItem, Document, DocumentV, Inline, InlineV, ItemV, ListItem, MetaV};
use crate::render::docx::lower::AssetFiles;
use crate::render::{lemma_messages_step, messages, note, Diagnostic, Handover, Renderer, OutputFormat, OptionsV, RenderOptions, Rendered};
use crate::render::typst::{blank, env_of, image_decision, title_override, utf8_bytes, Env};
use crate::security::{AssetDecision, AssetProbe, AssetProbes, DecisionV, SecurityPolicy};
use crate::text::{chars_of, decimal, decimal_string, decimal_wide, digit_char, is_alnum, is_blank, owned, push_char, same, to_lower, unicode_alnum, unicode_lower};
use crate::theme::{spec_of, ThemeSpec, ThemeSpecV};
use vstd::utf8::encode_utf8;
use vstd::relations::injective_on;
use vstd::set_lib::{lemma_int_range, lemma_len_subset, lemma_map_size, set_int_range};

verus! {

broadcast use vstd::std_specs::vec::group_vec_axioms;

// ---------------------------------------------------------------- escaping

/// Entity escaping of one character.
pub open spec fn esc_char(c: char) -> Seq<char> {
    if c == '&' {
        "&amp;"@
    } else if c == '<' {
        "&lt;"@
    } else if c == '>' {
        "&gt;"@
    } else if c == '"' {
        "&quot;"@
    } else if c == '\'' {
        "&#39;"@
    } else {
        seq![c]
    }
}

/// `s` escaped for HTML element and attribute content.
pub open spec fn escaped(s: Seq<char>) -> Seq<char>
    decreases s.len(),
{
    if s.len() == 0 { seq![] } else { escaped(s.drop_last()) + esc_char(s.last()) }
}

/// Entity references read back: `&amp;`, `&lt;`, `&gt;`, `&quot;` and
/// `&#39;` stand for their characters; anything else stands for itself.
pub open spec fn decoded(t: Seq<char>) -> Seq<char>
    decreases t.len(),
{
    if t.len() == 0 {
        seq![]
    } else if t.len() >= 5 && t.take(5) == seq!['&', 'a', 'm', 'p', ';'] {
        seq!['&'] + decoded(t.skip(5))
    } else if t.len() >= 4 && t.take(4) == seq!['&', 'l', 't', ';'] {
        seq!['<'] + decoded(t.skip(4))
    } else if t.len() >= 4 && t.take(4) == seq!['&', 'g', 't', ';'] {
        seq!['>'] + decoded(t.skip(4))
    } else if t.len() >= 6 && t.take(6) == seq!['&', 'q', 'u', 'o', 't', ';'] {
        seq!['"'] + decoded(t.skip(6))
    } else if t.len() >= 5 && t.take(5) == seq!['&', '#', '3', '9', ';'] {
        seq!['\''] + decoded(t.skip(5))
    } else {
        seq![t[0]] + decoded(t.skip(1))
    }
}

/// A character that can open or close markup or end an attribute value.
pub open spec fn markup_char(c: char) -> bool {
    c == '<' || c == '>' || c == '"' || c == '\''
}

proof fn lemma_esc_char_text(c: char)
    ensures
        forall|i: int| 0 <= i < esc_char(c).len() ==> !markup_char(#[trigger] esc_char(c)[i]),
        esc_char(c).len() > 0,
        esc_char(c)[0] == c || esc_char(c)[0] == '&',
        esc_char(c)[0] == '&' ==> c == '&' || markup_char(c),
{
    reveal_strlit("&amp;");
    reveal_strlit("&lt;");
    reveal_strlit("&gt;");
    reveal_strlit("&quot;");
    reveal_strlit("&#39;");
}

proof fn lemma_html_escaped_cons(c: char, s: Seq<char>)
    ensures
        escaped(seq![c] + s) == esc_char(c) + escaped(s),
    decreases s.len(),
{
    let u = seq![c] + s;
    if s.len() == 0 {
        assert(u =~= seq![c]);
        assert(u.drop_last() =~= Seq::<char>::empty());
        assert(escaped(u) == escaped(u.drop_last()) + esc_char(u.last()));
        assert(esc_char(c) + escaped(s) =~= esc_char(c));
        assert(escaped(u) =~= esc_char(c));
    } else {
        assert(u.drop_last() =~= seq![c] + s.drop_last());
        assert(u.last() == s.last());
        lemma_html_escaped_cons(c, s.drop_last());
        assert(escaped(u) == escaped(u.drop_last()) + esc_char(u.last()));
        assert(esc_char(c) + escaped(s.drop_last()) + esc_char(s.last()) =~= esc_char(c) + escaped(s));
    }
}

/// Escaped text holds no character that could open or close a tag or end an
/// attribute value, and reading its entities back gives the text itself:
/// document text can never become markup.
pub proof fn law_escaped_is_inert(s: Seq<char>)
    ensures
        forall|i: int| 0 <= i < escaped(s).len() ==> !markup_char(#[trigger] escaped(s)[i]),
        decoded(escaped(s)) == s,
    decreases s.len(),
{
    if s.len() > 0 {
        let c = s[0];
        let tail = s.drop_first();
        assert(seq![c] + tail =~= s);
        lemma_html_escaped_cons(c, tail);
        law_escaped_is_inert(tail);
        lemma_esc_char_text(c);
        let e = esc_char(c);
        let t = escaped(s);
        assert(t =~= e + escaped(tail));
        assert(forall|i: int| 0 <= i < e.len() ==> t[i] == e[i]);
        assert forall|i: int| 0 <= i < t.len() implies !markup_char(#[trigger] t[i]) by {
            if i < e.len() {
                assert(t[i] == e[i]);
            } else {
                assert(t[i] == escaped(tail)[i - e.len()]);
            }
        }
        reveal_strlit("&amp;");
        reveal_strlit("&lt;");
        reveal_strlit("&gt;");
        reveal_strlit("&quot;");
        reveal_strlit("&#39;");
        if c == '&' {
            assert(t.take(5) =~= seq!['&', 'a', 'm', 'p', ';']);
            assert(t.skip(5) =~= escaped(tail));
        } else if c == '<' {
            assert(t.len() >= 5 ==> t.take(5) != seq!['&', 'a', 'm', 'p', ';']) by { if t.len() >= 5 { assert(t.take(5)[1] == t[1]); } }
            assert(t.take(4) =~= seq!['&', 'l', 't', ';']);
            assert(t.skip(4) =~= escaped(tail));
        } else if c == '>' {
            assert(t.len() >= 5 ==> t.take(5) != seq!['&', 'a', 'm', 'p', ';']) by { if t.len() >= 5 { assert(t.take(5)[1] == t[1]); } }
            assert(t.len() >= 4 ==> t.take(4) != seq!['&', 'l', 't', ';']) by { if t.len() >= 4 { assert(t.take(4)[1] == t[1]); } }
            assert(t.take(4) =~= seq!['&', 'g', 't', ';']);
            assert(t.skip(4) =~= escaped(tail));
        } else if c == '"' {
            assert(t.len() >= 5 ==> t.take(5) != seq!['&', 'a', 'm', 'p', ';']) by { if t.len() >= 5 { assert(t.take(5)[1] == t[1]); } }
            assert(t.len() >= 4 ==> t.take(4) != seq!['&', 'l', 't', ';']) by { if t.len() >= 4 { assert(t.take(4)[1] == t[1]); } }
            assert(t.len() >= 4 ==> t.take(4) != seq!['&', 'g', 't', ';']) by { if t.len() >= 4 { assert(t.take(4)[1] == t[1]); } }
            assert(t.take(6) =~= seq!['&', 'q', 'u', 'o', 't', ';']);
            assert(t.skip(6) =~= escaped(tail));
        } else if c == '\'' {
            assert(t.len() >= 5 ==> t.take(5) != seq!['&', 'a', 'm', 'p', ';']) by { if t.len() >= 5 { assert(t.take(5)[1] == t[1]); } }
            assert(t.len() >= 4 ==> t.take(4) != seq!['&', 'l', 't', ';']) by { if t.len() >= 4 { assert(t.take(4)[1] == t[1]); } }
            assert(t.len() >= 4 ==> t.take(4) != seq!['&', 'g', 't', ';']) by { if t.len() >= 4 { assert(t.take(4)[1] == t[1]); } }
            assert(t.len() >= 6 ==> t.take(6) != seq!['&', 'q', 'u', 'o', 't', ';']) by {
                if t.len() >= 6 {
                    assert(t.take(6)[1] == '#');
                }
            }
            assert(t.take(5) =~= seq!['&', '#', '3', '9', ';']);
            assert(t.skip(5) =~= escaped(tail));
        } else {
            assert(t[0] == c);
            assert(t.len() >= 4 ==> t.take(4)[0] == c);
            assert(t.len() >= 5 ==> t.take(5)[0] == c);
            assert(t.len() >= 6 ==> t.take(6)[0] == c);
            assert(t.skip(1) =~= escaped(tail));
        }
    } else {
        assert(escaped(s) =~= Seq::<char>::empty());
    }
}

fn push_esc(s: &mut String, t: &str)
    ensures
        final(s)@ == old(s)@ + escaped(t@),
{
    let v = chars_of(t);
    let mut i: usize = 0;
    while i < v.len()
        invariant
            i <= v@.len(),
            v@ == t@,
            s@ == old(s)@ + escaped(v@.take(i as int)),
        decreases v.len() - i,
    {
        let c = v[i];
        if c == '&' {
            s.append("&amp;");
        } else if c == '<' {
            s.append("&lt;");
        } else if c == '>' {
            s.append("&gt;");
        } else if c == '"' {
            s.append("&quot;");
        } else if c == '\'' {
            s.append("&#39;");
        } else {
            push_char(s, c);
        }
        assert(v@.take(i + 1).drop_last() =~= v@.take(i as int));
        assert(s@ =~= old(s)@ + escaped(v@.take(i + 1)));
        i = i + 1;
    }
    assert(v@.take(i as int) =~= v@);
}

/// Escape text for HTML element and attribute content.
pub fn esc(input: &str) -> (o: String)
    ensures
        o@ == escaped(input@),
{
    let mut o = String::new();
    push_esc(&mut o, input);
    o
}

// ---------------------------------------------------------------- anchors

/// Characters that are not alphanumeric become `-`.
pub open spec fn dashed(s: Seq<char>) -> Seq<char> {
    s.map_values(|c: char| if unicode_alnum(c) { c } else { '-' })
}

/// Every run of `-` shortened to a single `-`.
pub open spec fn collapse_dashes(s: Seq<char>) -> Seq<char>
    decreases s.len(),
{
    if s.len() == 0 {
        seq![]
    } else {
        let c = collapse_dashes(s.drop_last());
        if s.last() == '-' && c.len() > 0 && c.last() == '-' { c } else { c.push(s.last()) }
    }
}

pub open spec fn trim_dashes_end(s: Seq<char>) -> Seq<char>
    decreases s.len(),
{
    if s.len() > 0 && s.last() == '-' { trim_dashes_end(s.drop_last()) } else { s }
}

pub open spec fn trim_dashes_start(s: Seq<char>) -> Seq<char>
    decreases s.len(),
{
    if s.len() > 0 && s[0] == '-' { trim_dashes_start(s.drop_first()) } else { s }
}

/// The anchor base for heading text: lower-cased, non-alphanumerics turned
/// into single dashes, no dash at either end; `section` when nothing is left.
pub open spec fn slug_base(text: Seq<char>) -> Seq<char> {
    let t = trim_dashes_start(trim_dashes_end(collapse_dashes(dashed(unicode_lower(text)))));
    if t.len() == 0 { "section"@ } else { t }
}

/// `base` followed by a dash and the decimal `n`.
pub open spec fn suffixed(base: Seq<char>, n: nat) -> Seq<char> {
    base + "-"@ + decimal(n)
}

/// Whether `n` is the least number from 2 on whose suffixed form of `base`
/// has not been handed out yet.
pub open spec fn is_first_free(given: Seq<Seq<char>>, base: Seq<char>, n: nat) -> bool {
    &&& 2 <= n
    &&& !given.contains(suffixed(base, n))
    &&& forall|m: nat| 2 <= m < n ==> given.contains(#[trigger] suffixed(base, m))
}

pub open spec fn first_free(given: Seq<Seq<char>>, base: Seq<char>) -> nat {
    choose|n: nat| is_first_free(given, base, n)
}

/// The anchor for `text` given the anchors handed out so far: the base when
/// it is still free, else the base with `-N` for the least N ≥ 2 that makes
/// it free.
pub open spec fn anchor_for(given: Seq<Seq<char>>, text: Seq<char>) -> Seq<char> {
    let base = slug_base(text);
    if !given.contains(base) { base } else { suffixed(base, first_free(given, base)) }
}

pub open spec fn slugs_after(given: Seq<Seq<char>>, text: Seq<char>) -> Seq<Seq<char>> {
    given.push(anchor_for(given, text))
}

/// Anchors handed out so far, in order.
pub struct Slugs {
    pub given: Vec<String>,
}

impl View for Slugs {
    type V = Seq<Seq<char>>;

    open spec fn view(&self) -> Seq<Seq<char>> {
        self.given@.map_values(|s: String| s@)
    }
}

proof fn lemma_digit_injective(a: nat, b: nat)
    requires
        a < 10,
        b < 10,
        digit_char(a) == digit_char(b),
    ensures
        a == b,
{
}

/// Distinct numbers have distinct decimal forms.
proof fn lemma_decimal_injective(a: nat, b: nat)
    requires
        decimal(a) == decimal(b),
    ensures
        a == b,
    decreases a + b,
{
    if a < 10 && b < 10 {
        assert(decimal(a)[0] == digit_char(a));
        assert(decimal(b)[0] == digit_char(b));
        lemma_digit_injective(a, b);
    } else if a < 10 {
        assert(decimal(b).len() == decimal(b / 10).len() + 1);
        assert(decimal(b / 10).len() >= 1);
        assert(false);
    } else if b < 10 {
        assert(decimal(a).len() == decimal(a / 10).len() + 1);
        assert(decimal(a / 10).len() >= 1);
        assert(false);
    } else {
        let da = decimal(a);
        let db = decimal(b);
        assert(da.last() == digit_char(a % 10));
        assert(db.last() == digit_char(b % 10));
        lemma_digit_injective(a % 10, b % 10);
        assert(da.drop_last() =~= decimal(a / 10));
        assert(db.drop_last() =~= decimal(b / 10));
        lemma_decimal_injective(a / 10, b / 10);
    }
}

proof fn lemma_suffixed_injective(base: Seq<char>, a: nat, b: nat)
    requires
        suffixed(base, a) == suffixed(base, b),
    ensures
        a == b,
{
    reveal_strlit("-");
    let k: int = base.len() as int + 1;
    assert(suffixed(base, a).skip(k) =~= decimal(a));
    assert(suffixed(base, b).skip(k) =~= decimal(b));
    lemma_decimal_injective(a, b);
}

/// Among the suffixed forms for 2 ..= len + 2 at least one is free.
proof fn lemma_some_suffix_free(given: Seq<Seq<char>>, base: Seq<char>)
    ensures
        exists|n: nat| 2 <= n <= given.len() + 2 && !given.contains(#[trigger] suffixed(base, n)),
{
    if forall|n: nat| 2 <= n <= given.len() + 2 ==> given.contains(#[trigger] suffixed(base, n)) {
        let hi: int = given.len() as int + 3;
        let r = set_int_range(2, hi);
        let f = |i: int| suffixed(base, i as nat);
        lemma_int_range(2, hi);
        assert(injective_on(f, r)) by {
            assert forall|x: int, y: int| r.contains(x) && r.contains(y) && #[trigger] f(x) == #[trigger] f(y) implies x == y by {
                lemma_suffixed_injective(base, x as nat, y as nat);
            }
        }
        lemma_map_size(r, r.map(f), f);
        assert(r.map(f).subset_of(given.to_set())) by {
            assert forall|s: Seq<char>| r.map(f).contains(s) implies given.to_set().contains(s) by {
                let i = choose|i: int| r.contains(i) && f(i) == s;
                assert(given.contains(suffixed(base, i as nat)));
            }
        }
        given.lemma_cardinality_of_set();
        lemma_len_subset(r.map(f), given.to_set());
        assert(false);
    }
}

proof fn lemma_scan_free(given: Seq<Seq<char>>, base: Seq<char>, n: nat, k: nat) -> (r: nat)
    requires
        2 <= n <= k,
        !given.contains(suffixed(base, k)),
        forall|m: nat| 2 <= m < n ==> given.contains(#[trigger] suffixed(base, m)),
    ensures
        is_first_free(given, base, r),
        r <= k,
    decreases k - n,
{
    if given.contains(suffixed(base, n)) {
        lemma_scan_free(given, base, n + 1, k)
    } else {
        n
    }
}

/// The least free suffix exists, so the anchor is well defined.
proof fn lemma_first_free(given: Seq<Seq<char>>, base: Seq<char>)
    ensures
        is_first_free(given, base, first_free(given, base)),
        first_free(given, base) <= given.len() + 2,
{
    lemma_some_suffix_free(given, base);
    let k = choose|n: nat| 2 <= n <= given.len() + 2 && !given.contains(#[trigger] suffixed(base, n));
    let n = lemma_scan_free(given, base, 2, k);
    assert(is_first_free(given, base, n));
    let c = first_free(given, base);
    assert(is_first_free(given, base, c));
    if c < n {
        assert(given.contains(suffixed(base, c)));
    }
    if n < c {
        assert(given.contains(suffixed(base, n)));
    }
}

/// No two dashes in a row.
pub open spec fn no_double_dash(s: Seq<char>) -> bool {
    forall|i: int| 0 <= i < s.len() - 1 ==> !(#[trigger] s[i] == '-' && s[i + 1] == '-')
}

/// Every character is a dash or alphanumeric.
pub open spec fn slug_chars(s: Seq<char>) -> bool {
    forall|i: int| 0 <= i < s.len() ==> #[trigger] s[i] == '-' || unicode_alnum(s[i])
}

proof fn lemma_collapse(s: Seq<char>)
    ensures
        no_double_dash(collapse_dashes(s)),
        slug_chars(s) ==> slug_chars(collapse_dashes(s)),
        (forall|i: int| 0 <= i < s.len() ==> #[trigger] s[i] == '-') ==> (forall|i: int| 0 <= i < collapse_dashes(s).len() ==> #[trigger] collapse_dashes(s)[i] == '-'),
    decreases s.len(),
{
    if s.len() > 0 {
        lemma_collapse(s.drop_last());
        let c = collapse_dashes(s.drop_last());
        assert(slug_chars(s) ==> slug_chars(s.drop_last()));
        assert((forall|i: int| 0 <= i < s.len() ==> #[trigger] s[i] == '-') ==> (forall|i: int| 0 <= i < s.drop_last().len() ==> #[trigger] s.drop_last()[i] == '-'));
        if !(s.last() == '-' && c.len() > 0 && c.last() == '-') {
            let r = c.push(s.last());
            assert forall|i: int| 0 <= i < r.len() - 1 implies !(#[trigger] r[i] == '-' && r[i + 1] == '-') by {
                if i < c.len() - 1 {
                    assert(r[i] == c[i] && r[i + 1] == c[i + 1]);
                }
            }
        }
    }
}

proof fn lemma_trim_end(s: Seq<char>)
    ensures
        trim_dashes_end(s) == s.take(trim_dashes_end(s).len() as int),
        trim_dashes_end(s).len() <= s.len(),
        trim_dashes_end(s).len() > 0 ==> trim_dashes_end(s).last() != '-',
        (forall|i: int| 0 <= i < s.len() ==> #[trigger] s[i] == '-') ==> trim_dashes_end(s).len() == 0,
    decreases s.len(),
{
    if s.len() > 0 && s.last() == '-' {
        lemma_trim_end(s.drop_last());
        assert(s.drop_last().take(trim_dashes_end(s).len() as int) =~= s.take(trim_dashes_end(s).len() as int));
        assert((forall|i: int| 0 <= i < s.len() ==> #[trigger] s[i] == '-') ==> (forall|i: int| 0 <= i < s.drop_last().len() ==> #[trigger] s.drop_last()[i] == '-'));
    } else {
        assert(s.take(s.len() as int) =~= s);
    }
}

proof fn lemma_trim_start(s: Seq<char>)
    ensures
        trim_dashes_start(s) == s.skip(s.len() - trim_dashes_start(s).len()),
        trim_dashes_start(s).len() <= s.len(),
        trim_dashes_start(s).len() > 0 ==> trim_dashes_start(s)[0] != '-',
    decreases s.len(),
{
    if s.len() > 0 && s[0] == '-' {
        lemma_trim_start(s.drop_first());
        let r = trim_dashes_start(s);
        assert(s.drop_first().skip(s.drop_first().len() - r.len()) =~= s.skip(s.len() - r.len()));
    } else {
        assert(s.skip(0) =~= s);
    }
}

/// An anchor base is never empty, has no dash at either end and no two
/// dashes in a row; it is `section` or made of dashes and the
/// alphanumerics of the lower-cased text; and it is `section` where the
/// lower-cased text has no alphanumeric character.
pub proof fn law_slug_base_shape(text: Seq<char>)
    ensures
        slug_base(text).len() > 0,
        slug_base(text)[0] != '-',
        slug_base(text).last() != '-',
        no_double_dash(slug_base(text)),
        slug_base(text) == "section"@ || slug_chars(slug_base(text)),
        (forall|i: int| 0 <= i < unicode_lower(text).len() ==> !unicode_alnum(#[trigger] unicode_lower(text)[i]))
            ==> slug_base(text) == "section"@,
{
    reveal_strlit("section");
    let l = unicode_lower(text);
    let d = dashed(l);
    let c = collapse_dashes(d);
    let e = trim_dashes_end(c);
    let t = trim_dashes_start(e);
    assert(slug_chars(d));
    lemma_collapse(d);
    lemma_trim_end(c);
    lemma_trim_start(e);
    assert forall|i: int| 0 <= i < t.len() implies #[trigger] t[i] == c[e.len() - t.len() + i] by {
        assert(t[i] == e[e.len() - t.len() + i]);
    }
    if t.len() > 0 {
        assert(t.last() == e.last());
        assert forall|i: int| 0 <= i < t.len() - 1 implies !(#[trigger] t[i] == '-' && t[i + 1] == '-') by {
            let j = e.len() - t.len() + i;
            assert(t[i + 1] == c[j + 1]);
        }
        assert forall|i: int| 0 <= i < t.len() implies #[trigger] t[i] == '-' || unicode_alnum(t[i]) by {
            let j = e.len() - t.len() + i;
        }
    }
    if forall|i: int| 0 <= i < l.len() ==> !unicode_alnum(#[trigger] l[i]) {
        assert forall|i: int| 0 <= i < d.len() implies #[trigger] d[i] == '-' by {
            assert(!unicode_alnum(l[i]));
        }
    }
}

proof fn lemma_decimal_digits(n: nat)
    ensures
        decimal(n).len() > 0,
        forall|i: int| 0 <= i < decimal(n).len() ==> #[trigger] decimal(n)[i] != '-',
    decreases n,
{
    if n >= 10 {
        lemma_decimal_digits(n / 10);
        let d = decimal(n / 10).push(digit_char(n % 10));
        assert forall|i: int| 0 <= i < d.len() implies #[trigger] d[i] != '-' by {
            if i < d.len() - 1 {
                assert(d[i] == decimal(n / 10)[i]);
            }
        }
    }
}

/// An anchor is never empty, has no dash at either end and no two dashes
/// in a row: its base, or its base, a dash and a number from 2 on.
pub proof fn law_anchor_shape(given: Seq<Seq<char>>, text: Seq<char>)
    ensures
        anchor_for(given, text).len() > 0,
        anchor_for(given, text)[0] != '-',
        anchor_for(given, text).last() != '-',
        no_double_dash(anchor_for(given, text)),
        anchor_for(given, text) == slug_base(text)
            || exists|n: nat| 2 <= n && anchor_for(given, text) == #[trigger] suffixed(slug_base(text), n),
{
    reveal_strlit("-");
    law_slug_base_shape(text);
    let base = slug_base(text);
    if given.contains(base) {
        lemma_first_free(given, base);
        let n = first_free(given, base);
        lemma_decimal_digits(n);
        let a = suffixed(base, n);
        let dn = decimal(n);
        assert(a.len() == base.len() + 1 + dn.len());
        assert(a[0] == base[0]);
        assert(a.last() == dn.last());
        assert forall|i: int| 0 <= i < a.len() - 1 implies !(#[trigger] a[i] == '-' && a[i + 1] == '-') by {
            if i < base.len() - 1 {
                assert(a[i] == base[i] && a[i + 1] == base[i + 1]);
            } else if i == base.len() - 1 {
                assert(a[i] == base.last());
            } else if i == base.len() {
                assert(a[i + 1] == dn[0]);
            } else {
                assert(a[i] == dn[i - base.len() - 1]);
            }
        }
    }
}

/// A new anchor is never one already handed out.
pub proof fn law_anchor_is_fresh(given: Seq<Seq<char>>, text: Seq<char>)
    ensures
        !given.contains(anchor_for(given, text)),
{
    lemma_first_free(given, slug_base(text));
}

/// The anchors handed out, in order, to headings with plain texts `texts`,
/// starting from none: what `unique_slug` calls on a new `Slugs` leave in it.
pub open spec fn anchors_given(texts: Seq<Seq<char>>) -> Seq<Seq<char>>
    decreases texts.len(),
{
    if texts.len() == 0 { seq![] } else { slugs_after(anchors_given(texts.drop_last()), texts.last()) }
}

/// Anchors stay unique: one anchor per heading, and no anchor handed out
/// twice, however the heading texts repeat.
pub proof fn law_anchors_unique(texts: Seq<Seq<char>>)
    ensures
        anchors_given(texts).len() == texts.len(),
        forall|i: int, j: int| 0 <= i < j < texts.len() ==> anchors_given(texts)[i] != anchors_given(texts)[j],
    decreases texts.len(),
{
    if texts.len() > 0 {
        let g = anchors_given(texts.drop_last());
        law_anchors_unique(texts.drop_last());
        law_anchor_is_fresh(g, texts.last());
        let a = anchor_for(g, texts.last());
        assert forall|i: int, j: int| 0 <= i < j < texts.len() implies anchors_given(texts)[i] != anchors_given(texts)[j] by {
            if j == texts.len() - 1 {
                assert(g.contains(g[i]));
            }
        }
    }
}

impl Slugs {
    pub fn new() -> (s: Slugs)
        ensures
            s@ == Seq::<Seq<char>>::empty(),
    {
        Slugs { given: Vec::new() }
    }

    /// Whether `anchor` was handed out already.
    fn has(&self, anchor: &str) -> (b: bool)
        ensures
            b == self@.contains(anchor@),
    {
        let mut i: usize = 0;
        while i < self.given.len()
            invariant
                i <= self.given@.len(),
                forall|j: int| 0 <= j < i ==> self.given@[j]@ != anchor@,
            decreases self.given.len() - i,
        {
            if same(self.given[i].as_str(), anchor) {
                assert(self@[i as int] == anchor@);
                return true;
            }
            i = i + 1;
        }
        proof {
            if self@.contains(anchor@) {
                let j = choose|j: int| 0 <= j < self@.len() && self@[j] == anchor@;
                assert(self.given@[j]@ == anchor@);
            }
        }
        false
    }
}

fn slug_base_of(text: &str) -> (b: String)
    ensures
        b@ == slug_base(text@),
{
    let lower = to_lower(text);
    let v = chars_of(lower.as_str());
    // map non-alphanumerics to dashes while collapsing runs
    let ghost d = dashed(v@);
    let mut out: Vec<char> = Vec::new();
    let mut i: usize = 0;
    while i < v.len()
        invariant
            i <= v@.len(),
            d == dashed(v@),
            out@ == collapse_dashes(d.take(i as int)),
        decreases v.len() - i,
    {
        let c = if is_alnum(v[i]) { v[i] } else { '-' };
        assert(d.take(i + 1).drop_last() =~= d.take(i as int));
        assert(d.take(i + 1).last() == c);
        if c == '-' && out.len() > 0 && out[out.len() - 1] == '-' {
        } else {
            out.push(c);
        }
        i = i + 1;
    }
    assert(d.take(i as int) =~= d);
    // trim dashes at the end, then at the start
    let mut e = out.len();
    assert(out@.take(e as int) =~= out@);
    while e > 0 && out[e - 1] == '-'
        invariant
            e <= out@.len(),
            trim_dashes_end(out@.take(e as int)) == trim_dashes_end(out@),
        decreases e,
    {
        assert(out@.take(e as int).drop_last() =~= out@.take(e - 1));
        e = e - 1;
    }
    proof {
        assert(out@.take(out@.len() as int) =~= out@);
    }
    let mut b: usize = 0;
    let ghost t = out@.take(e as int);
    assert(trim_dashes_end(t) == t);
    assert(t.skip(0) =~= t);
    while b < e && out[b] == '-'
        invariant
            b <= e <= out@.len(),
            t == out@.take(e as int),
            trim_dashes_start(t.skip(b as int)) == trim_dashes_start(t),
        decreases e - b,
    {
        assert(t.skip(b as int).drop_first() =~= t.skip(b + 1));
        b = b + 1;
    }
    assert(t.skip(b as int) =~= out@.subrange(b as int, e as int));
    assert(trim_dashes_start(t.skip(b as int)) == t.skip(b as int));
    if b == e {
        owned("section")
    } else {
        crate::text::string_of_range(&out, b, e)
    }
}

/// The anchor for a heading with plain text `text`, keeping anchors unique:
/// a base already handed out gets the least `-N` (N ≥ 2) that is still free.
pub fn unique_slug(text: &str, seen: &mut Slugs) -> (a: String)
    ensures
        a@ == anchor_for(old(seen)@, text@),
        !old(seen)@.contains(a@),
        final(seen)@ == slugs_after(old(seen)@, text@),
{
    let base = slug_base_of(text);
    let ghost given = seen@;
    proof { lemma_first_free(given, base@); }
    let a = if !seen.has(base.as_str()) {
        base
    } else {
        let ghost k = first_free(given, base@);
        let count = seen.given.len();
        let mut n: u128 = 2;
        let mut cand = base.clone();
        cand.append("-");
        cand.append(decimal_wide(2).as_str());
        while seen.has(cand.as_str())
            invariant
                seen@ == given,
                2 <= n <= k,
                k == first_free(given, base@),
                is_first_free(given, base@, k),
                k <= given.len() + 2,
                given.len() == count,
                cand@ == suffixed(base@, n as nat),
                forall|m: nat| 2 <= m < n ==> given.contains(#[trigger] suffixed(base@, m)),
            decreases k - n,
        {
            assert(n < k);
            n = n + 1;
            cand = base.clone();
            cand.append("-");
            cand.append(decimal_wide(n).as_str());
        }
        proof {
            if n < k {
                assert(!given.contains(suffixed(base@, n as nat)));
            }
        }
        cand
    };
    let ghost old_given = seen.given@;
    seen.given.push(a.clone());
    assert(seen@ =~= given.push(a@)) by {
        assert(seen.given@.drop_last() =~= old_given);
    }
    a
}

// ---------------------------------------------------------------- lowering (spec)

/// The state threaded through the lowering: output so far, anchor counts,
/// footnotes met (in order) and diagnostics.
pub struct HS {
    pub out: Seq<char>,
    pub slugs: Seq<Seq<char>>,
    pub notes: Seq<Seq<BlockV>>,
    pub diags: Seq<Seq<char>>,
}

pub open spec fn put(st: HS, t: Seq<char>) -> HS {
    HS { out: st.out + t, ..st }
}

pub open spec fn diag(st: HS, m: Seq<char>) -> HS {
    HS { diags: st.diags.push(m), ..st }
}

pub open spec fn width_attr(w: Option<Seq<char>>) -> Seq<char> {
    match w {
        Some(w) => " style=\"width: "@ + w + "\""@,
        None => seq![],
    }
}

/// The reference mark of footnote number `n`.
pub open spec fn fn_ref(n: nat) -> Seq<char> {
    "<sup class=\"footnote-ref\"><a href=\"#fn"@ + decimal(n) + "\" id=\"fnref"@ + decimal(n) + "\">["@ + decimal(n) + "]</a></sup>"@
}

pub open spec fn h_inline(i: InlineV, env: Env, st: HS) -> HS
    decreases i, 0nat,
{
    match i {
        InlineV::Text(t) => put(st, escaped(t)),
        InlineV::SoftBreak => put(st, "\n"@),
        InlineV::LineBreak => put(st, "<br>\n"@),
        InlineV::Code(c) => put(st, "<code>"@ + escaped(c) + "</code>"@),
        InlineV::Emph(c) => put(h_inlines(c, env, put(st, "<em>"@)), "</em>"@),
        InlineV::Strong(c) => put(h_inlines(c, env, put(st, "<strong>"@)), "</strong>"@),
        InlineV::Strikethrough(c) => put(h_inlines(c, env, put(st, "<del>"@)), "</del>"@),
        InlineV::Superscript(c) => put(h_inlines(c, env, put(st, "<sup>"@)), "</sup>"@),
        InlineV::Link { href, content } => put(h_inlines(content, env, put(st, "<a href=\""@ + escaped(href) + "\">"@)), "</a>"@),
        InlineV::Image { src, alt, width } => match image_decision(env, src) {
            DecisionV::Allow(p) => put(st, "<img src=\""@ + escaped(p) + "\" alt=\""@ + escaped(alt) + "\""@ + width_attr(width) + ">"@),
            DecisionV::Deny(r) => put(diag(st, r), "<em>"@ + escaped(alt) + "</em>"@),
        },
        InlineV::Footnote(bs) => {
            let st1 = HS { notes: st.notes.push(bs), ..st };
            put(st1, fn_ref(st1.notes.len()))
        },
    }
}

pub open spec fn h_inlines(s: Seq<InlineV>, env: Env, st: HS) -> HS
    decreases s, 0nat,
{
    if s.len() == 0 { st } else { h_inline(s.last(), env, h_inlines(s.drop_last(), env, st)) }
}

pub open spec fn clamp_level(level: u8) -> nat {
    if level < 1 { 1 } else if level > 6 { 6 } else { level as nat }
}

pub open spec fn cell_style(align: Seq<Align>, k: int) -> Seq<char> {
    if 0 <= k < align.len() && align[k] == Align::Center {
        " style=\"text-align: center\""@
    } else if 0 <= k < align.len() && align[k] == Align::Right {
        " style=\"text-align: right\""@
    } else {
        seq![]
    }
}

pub open spec fn h_cells(align: Seq<Align>, cells: Seq<Seq<InlineV>>, tag: Seq<char>, env: Env, st: HS) -> HS
    decreases cells, 0nat,
{
    if cells.len() == 0 {
        st
    } else {
        let k = cells.len() - 1;
        put(h_inlines(cells.last(), env, put(h_cells(align, cells.drop_last(), tag, env, st), "<"@ + tag + cell_style(align, k) + ">"@)), "</"@ + tag + ">"@)
    }
}

pub open spec fn h_rows(align: Seq<Align>, rows: Seq<Seq<Seq<InlineV>>>, env: Env, st: HS) -> HS
    decreases rows, 0nat,
{
    if rows.len() == 0 {
        st
    } else {
        put(h_cells(align, rows.last(), "td"@, env, put(h_rows(align, rows.drop_last(), env, st), "<tr>"@)), "</tr>\n"@)
    }
}

pub open spec fn checkbox(task: Option<bool>) -> Seq<char> {
    match task {
        Some(true) => "<input type=\"checkbox\" disabled checked> "@,
        Some(false) => "<input type=\"checkbox\" disabled> "@,
        None => seq![],
    }
}

/// The blocks of a list item; a lone paragraph is emitted tight (inline run
/// only), otherwise blocks after the first are put on a new line.
pub open spec fn h_item_body(bs: Seq<BlockV>, total: nat, env: Env, st: HS) -> HS
    decreases bs, 0nat,
{
    if bs.len() == 0 {
        st
    } else {
        let prev = h_item_body(bs.drop_last(), total, env, st);
        let k = bs.len() - 1;
        match bs.last() {
            BlockV::Paragraph(c) if total == 1 => h_inlines(c, env, prev),
            _ => h_block(bs.last(), env, if k > 0 { put(prev, "\n"@) } else { prev }),
        }
    }
}

pub open spec fn h_items(items: Seq<ItemV>, env: Env, st: HS) -> HS
    decreases items, 0nat,
{
    if items.len() == 0 {
        st
    } else {
        let it = items.last();
        put(h_item_body(it.blocks, it.blocks.len(), env, put(h_items(items.drop_last(), env, st), "<li>"@ + checkbox(it.task))), "</li>\n"@)
    }
}

pub open spec fn h_defs(d: Seq<DefV>, env: Env, st: HS) -> HS
    decreases d, 0nat,
{
    if d.len() == 0 {
        st
    } else {
        let prev = h_defs(d.drop_last(), env, st);
        put(h_blocks(d.last().details, env, put(h_inlines(d.last().term, env, put(prev, "<dt>"@)), "</dt>\n<dd>\n"@)), "</dd>\n"@)
    }
}

pub open spec fn kind_class(k: AdmonitionKind) -> Seq<char> {
    match k {
        AdmonitionKind::Note => "note"@,
        AdmonitionKind::Tip => "tip"@,
        AdmonitionKind::Important => "important"@,
        AdmonitionKind::Warning => "warning"@,
        AdmonitionKind::Caution => "caution"@,
    }
}

pub open spec fn code_open(lang: Option<Seq<char>>) -> Seq<char> {
    match lang {
        Some(l) => "<pre><code class=\"language-"@ + escaped(l) + "\">"@,
        None => "<pre><code>"@,
    }
}

pub open spec fn heading_open(level: nat, anchor: Seq<char>) -> Seq<char> {
    "<h"@ + decimal(level) + " id=\""@ + anchor + "\">"@
}

pub open spec fn h_block(b: BlockV, env: Env, st: HS) -> HS
    decreases b, 0nat,
{
    match b {
        BlockV::Heading { level, content } => {
            let text = plain_inlines(content);
            let st1 = HS { slugs: slugs_after(st.slugs, text), ..st };
            put(h_inlines(content, env, put(st1, heading_open(clamp_level(level), anchor_for(st.slugs, text)))), "</h"@ + decimal(clamp_level(level)) + ">\n"@)
        },
        BlockV::Paragraph(c) => put(h_inlines(c, env, put(st, "<p>"@)), "</p>\n"@),
        BlockV::CodeBlock { lang, code } => {
            let st1 = if lang == Some("mermaid"@) { diag(st, crate::render::typst::mermaid_note()) } else { st };
            put(st1, code_open(lang) + escaped(code) + "</code></pre>\n"@)
        },
        BlockV::BlockQuote(bs) => put(h_blocks(bs, env, put(st, "<blockquote>\n"@)), "</blockquote>\n"@),
        BlockV::List { ordered, items } => {
            let open = if ordered { "<ol>\n"@ } else { "<ul>\n"@ };
            let close = if ordered { "</ol>\n"@ } else { "</ul>\n"@ };
            put(h_items(items, env, put(st, open)), close)
        },
        BlockV::Table { align, head, rows } => {
            let st1 = put(st, "<table>\n"@);
            let st2 = if head.len() > 0 {
                put(h_cells(align, head, "th"@, env, put(st1, "<thead>\n<tr>"@)), "</tr>\n</thead>\n"@)
            } else {
                st1
            };
            put(h_rows(align, rows, env, put(st2, "<tbody>\n"@)), "</tbody>\n</table>\n"@)
        },
        BlockV::ThematicBreak => put(st, "<hr>\n"@),
        BlockV::DefinitionList(d) => put(h_defs(d, env, put(st, "<dl>\n"@)), "</dl>\n"@),
        BlockV::Admonition { kind, title, blocks } => put(
            h_blocks(blocks, env, put(st, "<div class=\"admonition "@ + kind_class(kind) + "\">\n<p class=\"admonition-title\">"@ + escaped(title) + "</p>\n"@)),
            "</div>\n"@,
        ),
        BlockV::RawHtml(_) => diag(st, crate::render::typst::raw_html_note()),
    }
}

pub open spec fn h_blocks(s: Seq<BlockV>, env: Env, st: HS) -> HS
    decreases s, 0nat,
{
    if s.len() == 0 { st } else { h_block(s.last(), env, h_blocks(s.drop_last(), env, st)) }
}

/// The footnote bodies as list items `fn1`, `fn2`, … .
pub open spec fn h_note_items(notes: Seq<Seq<BlockV>>, env: Env, st: HS) -> HS
    decreases notes.len(),
{
    if notes.len() == 0 {
        st
    } else {
        let prev = h_note_items(notes.drop_last(), env, st);
        put(h_blocks(notes.last(), env, put(prev, "<li id=\"fn"@ + decimal(notes.len()) + "\">\n"@)), "</li>\n"@)
    }
}

/// The trailing footnote section: the footnotes met so far, each rendered
/// once; footnotes met while rendering them get a mark but no body.
pub open spec fn h_footnotes(env: Env, st: HS) -> HS {
    if st.notes.len() == 0 {
        st
    } else {
        put(h_note_items(st.notes, env, put(HS { notes: seq![], ..st }, "<section class=\"footnotes\">\n<ol>\n"@)), "</ol>\n</section>\n"@)
    }
}

/// The table-of-contents entries of the top-level headings, with anchors
/// counted afresh.
pub open spec fn toc_fold(blocks: Seq<BlockV>) -> (Seq<char>, Seq<Seq<char>>)
    decreases blocks.len(),
{
    if blocks.len() == 0 {
        (seq![], seq![])
    } else {
        let (t, m) = toc_fold(blocks.drop_last());
        match blocks.last() {
            BlockV::Heading { level, content } => {
                let text = plain_inlines(content);
                (t + "<li class=\"lvl-"@ + decimal(level as nat) + "\"><a href=\"#"@ + anchor_for(m, text) + "\">"@ + escaped(text) + "</a></li>\n"@, slugs_after(m, text))
            },
            _ => (t, m),
        }
    }
}

pub open spec fn toc_html(blocks: Seq<BlockV>) -> Seq<char> {
    let entries = toc_fold(blocks).0;
    if entries.len() == 0 {
        seq![]
    } else {
        "<nav class=\"toc\">\n<strong>Contents</strong>\n<ul>\n"@ + entries + "</ul>\n</nav>\n"@
    }
}

pub open spec fn html_byline(meta: MetaV) -> Seq<char> {
    match (meta.author, meta.date) {
        (Some(a), Some(d)) => "<p class=\"byline\">"@ + escaped(a) + " — "@ + escaped(d) + "</p>\n"@,
        (Some(a), None) => "<p class=\"byline\">"@ + escaped(a) + "</p>\n"@,
        (None, Some(d)) => "<p class=\"byline\">"@ + escaped(d) + "</p>\n"@,
        (None, None) => seq![],
    }
}

pub open spec fn html_title_block(meta: MetaV, title: Option<Seq<char>>) -> Seq<char> {
    match title {
        None => seq![],
        Some(t) => if is_blank(t) {
            seq![]
        } else {
            "<header class=\"title-block\">\n<h1>"@ + escaped(t) + "</h1>\n"@
                + match meta.subtitle {
                    Some(sub) => "<p class=\"subtitle\">"@ + escaped(sub) + "</p>\n"@,
                    None => seq![],
                }
                + html_byline(meta) + "<hr>\n</header>\n"@
        },
    }
}

/// The page body state after the title block, the contents, every block and
/// the footnote section.
pub open spec fn html_body(doc: DocumentV, o: OptionsV, env: Env) -> HS {
    let start = HS {
        out: html_title_block(doc.meta, title_of(doc, o.title)) + (if o.toc { toc_html(doc.blocks) } else { seq![] }),
        slugs: seq![],
        notes: seq![],
        diags: seq![],
    };
    h_footnotes(env, h_blocks(doc.blocks, env, start))
}

// ---------------------------------------------------------------- lowering (exec)

/// The lowering state: output so far, anchor counts, footnotes met and
/// diagnostics.
pub struct HtmlCtx<'a> {
    pub out: String,
    pub slugs: Slugs,
    pub notes: Vec<&'a Vec<Block>>,
    pub diags: Vec<Diagnostic>,
}

pub open spec fn notes_v(s: Seq<&Vec<Block>>) -> Seq<Seq<BlockV>>
    decreases s.len(),
{
    if s.len() == 0 { seq![] } else { notes_v(s.drop_last()).push(blocks_v(s.last()@)) }
}

proof fn lemma_notes_v_len(s: Seq<&Vec<Block>>)
    ensures
        notes_v(s).len() == s.len(),
    decreases s.len(),
{
    if s.len() > 0 {
        lemma_notes_v_len(s.drop_last());
    }
}

impl<'a> View for HtmlCtx<'a> {
    type V = HS;

    open spec fn view(&self) -> HS {
        HS { out: self.out@, slugs: self.slugs@, notes: notes_v(self.notes@), diags: messages(self.diags@) }
    }
}

fn put_str<'a>(c: &mut HtmlCtx<'a>, t: &str)
    ensures
        final(c)@ == put(old(c)@, t@),
{
    c.out.append(t);
}

fn put_esc<'a>(c: &mut HtmlCtx<'a>, t: &str)
    ensures
        final(c)@ == put(old(c)@, escaped(t@)),
{
    push_esc(&mut c.out, t);
}

fn put_num<'a>(c: &mut HtmlCtx<'a>, n: u64)
    ensures
        final(c)@ == put(old(c)@, decimal(n as nat)),
{
    let d = decimal_string(n);
    c.out.append(d.as_str());
}

fn put_diag<'a>(c: &mut HtmlCtx<'a>, m: String)
    ensures
        final(c)@ == diag(old(c)@, m@),
{
    note(&mut c.diags, m);
}

fn emit_image<'a>(src: &String, alt: &String, width: &Option<String>, policy: &SecurityPolicy, probes: &AssetProbes, c: &mut HtmlCtx<'a>)
    ensures
        final(c)@ == h_inline(InlineV::Image { src: src@, alt: alt@, width: opt_v(*width) }, env_of(policy, probes), old(c)@),
{
    match policy.resolve_with(src.as_str(), probes) {
        AssetDecision::Allow(path) => {
            let ghost c0 = c@;
            put_str(c, "<img src=\"");
            put_esc(c, path.as_str());
            put_str(c, "\" alt=\"");
            put_esc(c, alt.as_str());
            put_str(c, "\"");
            if let Some(w) = width {
                put_str(c, " style=\"width: ");
                put_str(c, w.as_str());
                put_str(c, "\"");
            }
            put_str(c, ">");
            assert(c@.out =~= c0.out + ("<img src=\""@ + escaped(path@) + "\" alt=\""@ + escaped(alt@) + "\""@ + width_attr(opt_v(*width)) + ">"@));
        },
        AssetDecision::Deny(reason) => {
            put_diag(c, reason);
            let ghost c1 = c@;
            put_str(c, "<em>");
            put_esc(c, alt.as_str());
            put_str(c, "</em>");
            assert(c@.out =~= c1.out + ("<em>"@ + escaped(alt@) + "</em>"@));
        },
    }
}

fn emit_inline<'a>(i: &'a Inline, policy: &SecurityPolicy, probes: &AssetProbes, c: &mut HtmlCtx<'a>)
    ensures
        final(c)@ == h_inline(i@, env_of(policy, probes), old(c)@),
    decreases i,
{
    match i {
        Inline::Text(t) => put_esc(c, t.as_str()),
        Inline::SoftBreak => put_str(c, "\n"),
        Inline::LineBreak => put_str(c, "<br>\n"),
        Inline::Code(code) => {
            let ghost c0 = c@;
            put_str(c, "<code>");
            put_esc(c, code.as_str());
            put_str(c, "</code>");
            assert(c@.out =~= c0.out + ("<code>"@ + escaped(code@) + "</code>"@));
        },
        Inline::Emph(x) => {
            put_str(c, "<em>");
            emit_inlines(x, policy, probes, c);
            put_str(c, "</em>");
        },
        Inline::Strong(x) => {
            put_str(c, "<strong>");
            emit_inlines(x, policy, probes, c);
            put_str(c, "</strong>");
        },
        Inline::Strikethrough(x) => {
            put_str(c, "<del>");
            emit_inlines(x, policy, probes, c);
            put_str(c, "</del>");
        },
        Inline::Superscript(x) => {
            put_str(c, "<sup>");
            emit_inlines(x, policy, probes, c);
            put_str(c, "</sup>");
        },
        Inline::Link { href, content } => {
            let ghost c0 = c@;
            put_str(c, "<a href=\"");
            put_esc(c, href.as_str());
            put_str(c, "\">");
            assert(c@.out =~= c0.out + ("<a href=\""@ + escaped(href@) + "\">"@));
            emit_inlines(content, policy, probes, c);
            put_str(c, "</a>");
        },
        Inline::Image { src, alt, width } => emit_image(src, alt, width, policy, probes, c),
        Inline::Footnote(blocks) => {
            let ghost old_notes = c.notes@;
            c.notes.push(blocks);
            assert(c.notes@.drop_last() =~= old_notes);
            proof { lemma_notes_v_len(c.notes@); }
            let n = c.notes.len();
            let ghost c0 = c@;
            put_str(c, "<sup class=\"footnote-ref\"><a href=\"#fn");
            put_num(c, n as u64);
            put_str(c, "\" id=\"fnref");
            put_num(c, n as u64);
            put_str(c, "\">[");
            put_num(c, n as u64);
            put_str(c, "]</a></sup>");
            assert(c@.out =~= c0.out + fn_ref(n as nat));
        },
    }
}

fn emit_inlines<'a>(v: &'a Vec<Inline>, policy: &SecurityPolicy, probes: &AssetProbes, c: &mut HtmlCtx<'a>)
    ensures
        final(c)@ == h_inlines(inlines_v(v@), env_of(policy, probes), old(c)@),
    decreases v,
{
    let ghost e = env_of(policy, probes);
    let mut i: usize = 0;
    while i < v.len()
        invariant
            i <= v@.len(),
            e == env_of(policy, probes),
            c@ == h_inlines(inlines_v(v@.take(i as int)), e, old(c)@),
        decreases v.len() - i,
    {
        proof { lemma_inlines_v_step(v@, i as int); }
        emit_inline(&v[i], policy, probes, c);
        i = i + 1;
    }
    assert(v@.take(i as int) =~= v@);
}

fn emit_blocks<'a>(v: &'a Vec<Block>, policy: &SecurityPolicy, probes: &AssetProbes, c: &mut HtmlCtx<'a>)
    ensures
        final(c)@ == h_blocks(blocks_v(v@), env_of(policy, probes), old(c)@),
    decreases v,
{
    let ghost e = env_of(policy, probes);
    let mut i: usize = 0;
    while i < v.len()
        invariant
            i <= v@.len(),
            e == env_of(policy, probes),
            c@ == h_blocks(blocks_v(v@.take(i as int)), e, old(c)@),
        decreases v.len() - i,
    {
        proof { lemma_blocks_v_step(v@, i as int); }
        emit_block(&v[i], policy, probes, c);
        i = i + 1;
    }
    assert(v@.take(i as int) =~= v@);
}

fn emit_item_body<'a>(v: &'a Vec<Block>, policy: &SecurityPolicy, probes: &AssetProbes, c: &mut HtmlCtx<'a>)
    ensures
        final(c)@ == h_item_body(blocks_v(v@), v@.len(), env_of(policy, probes), old(c)@),
    decreases v,
{
    let ghost e = env_of(policy, probes);
    let total = v.len();
    let mut i: usize = 0;
    while i < v.len()
        invariant
            i <= v@.len(),
            total == v@.len(),
            e == env_of(policy, probes),
            c@ == h_item_body(blocks_v(v@.take(i as int)), total as nat, e, old(c)@),
        decreases v.len() - i,
    {
        proof { lemma_blocks_v_step(v@, i as int); }
        match &v[i] {
            Block::Paragraph(x) if total == 1 => {
                emit_inlines(x, policy, probes, c);
            },
            other => {
                if i > 0 {
                    put_str(c, "\n");
                }
                emit_block(other, policy, probes, c);
            },
        }
        i = i + 1;
    }
    assert(v@.take(i as int) =~= v@);
}

fn emit_items<'a>(v: &'a Vec<ListItem>, policy: &SecurityPolicy, probes: &AssetProbes, c: &mut HtmlCtx<'a>)
    ensures
        final(c)@ == h_items(items_v(v@), env_of(policy, probes), old(c)@),
    decreases v,
{
    let ghost e = env_of(policy, probes);
    let mut i: usize = 0;
    while i < v.len()
        invariant
            i <= v@.len(),
            e == env_of(policy, probes),
            c@ == h_items(items_v(v@.take(i as int)), e, old(c)@),
        decreases v.len() - i,
    {
        proof {
            lemma_items_v_step(v@, i as int);
            crate::ir::lemma_blocks_v(v@[i as int].blocks@);
        }
        let item = &v[i];
        let ghost c0 = c@;
        put_str(c, "<li>");
        match item.task {
            Some(true) => put_str(c, "<input type=\"checkbox\" disabled checked> "),
            Some(false) => put_str(c, "<input type=\"checkbox\" disabled> "),
            None => {},
        }
        assert(c@.out =~= c0.out + ("<li>"@ + checkbox(item.task)));
        emit_item_body(&item.blocks, policy, probes, c);
        put_str(c, "</li>\n");
        i = i + 1;
    }
    assert(v@.take(i as int) =~= v@);
}

fn put_cell_style<'a>(align: &Vec<Align>, k: usize, c: &mut HtmlCtx<'a>)
    ensures
        final(c)@ == put(old(c)@, cell_style(align@, k as int)),
{
    if k < align.len() && align[k] == Align::Center {
        put_str(c, " style=\"text-align: center\"");
    } else if k < align.len() && align[k] == Align::Right {
        put_str(c, " style=\"text-align: right\"");
    } else {
        assert(c@.out + seq![] =~= c@.out);
    }
}

fn emit_cells<'a>(align: &Vec<Align>, v: &'a Vec<Vec<Inline>>, th: bool, policy: &SecurityPolicy, probes: &AssetProbes, c: &mut HtmlCtx<'a>)
    ensures
        final(c)@ == h_cells(align@, cells_v(v@), if th { "th"@ } else { "td"@ }, env_of(policy, probes), old(c)@),
    decreases v,
{
    let ghost e = env_of(policy, probes);
    let ghost tag = if th { "th"@ } else { "td"@ };
    let mut i: usize = 0;
    while i < v.len()
        invariant
            i <= v@.len(),
            e == env_of(policy, probes),
            tag == (if th { "th"@ } else { "td"@ }),
            c@ == h_cells(align@, cells_v(v@.take(i as int)), tag, e, old(c)@),
        decreases v.len() - i,
    {
        proof {
            lemma_cells_v_step(v@, i as int);
            lemma_cells_v(v@.take(i + 1));
        }
        let ghost c0 = c@;
        put_str(c, "<");
        if th { put_str(c, "th"); } else { put_str(c, "td"); }
        put_cell_style(align, i, c);
        put_str(c, ">");
        assert(c@.out =~= c0.out + ("<"@ + tag + cell_style(align@, i as int) + ">"@));
        emit_inlines(&v[i], policy, probes, c);
        let ghost c1 = c@;
        put_str(c, "</");
        if th { put_str(c, "th"); } else { put_str(c, "td"); }
        put_str(c, ">");
        assert(c@.out =~= c1.out + ("</"@ + tag + ">"@));
        i = i + 1;
    }
    assert(v@.take(i as int) =~= v@);
}

fn emit_rows<'a>(align: &Vec<Align>, v: &'a Vec<Vec<Vec<Inline>>>, policy: &SecurityPolicy, probes: &AssetProbes, c: &mut HtmlCtx<'a>)
    ensures
        final(c)@ == h_rows(align@, rows_v(v@), env_of(policy, probes), old(c)@),
    decreases v,
{
    let ghost e = env_of(policy, probes);
    let mut i: usize = 0;
    while i < v.len()
        invariant
            i <= v@.len(),
            e == env_of(policy, probes),
            c@ == h_rows(align@, rows_v(v@.take(i as int)), e, old(c)@),
        decreases v.len() - i,
    {
        proof { lemma_rows_v_step(v@, i as int); }
        put_str(c, "<tr>");
        emit_cells(align, &v[i], false, policy, probes, c);
        put_str(c, "</tr>\n");
        i = i + 1;
    }
    assert(v@.take(i as int) =~= v@);
}

fn emit_defs<'a>(v: &'a Vec<DefinitionItem>, policy: &SecurityPolicy, probes: &AssetProbes, c: &mut HtmlCtx<'a>)
    ensures
        final(c)@ == h_defs(defs_v(v@), env_of(policy, probes), old(c)@),
    decreases v,
{
    let ghost e = env_of(policy, probes);
    let mut i: usize = 0;
    while i < v.len()
        invariant
            i <= v@.len(),
            e == env_of(policy, probes),
            c@ == h_defs(defs_v(v@.take(i as int)), e, old(c)@),
        decreases v.len() - i,
    {
        proof { lemma_defs_v_step(v@, i as int); }
        put_str(c, "<dt>");
        emit_inlines(&v[i].term, policy, probes, c);
        put_str(c, "</dt>\n<dd>\n");
        emit_blocks(&v[i].details, policy, probes, c);
        put_str(c, "</dd>\n");
        i = i + 1;
    }
    assert(v@.take(i as int) =~= v@);
}

#[verifier::spinoff_prover]
fn emit_heading<'a>(level: u8, content: &'a Vec<Inline>, policy: &SecurityPolicy, probes: &AssetProbes, c: &mut HtmlCtx<'a>)
    ensures
        final(c)@ == h_block(BlockV::Heading { level: level, content: inlines_v(content@) }, env_of(policy, probes), old(c)@),
{
    let lv: u64 = if level < 1 { 1 } else if level > 6 { 6 } else { level as u64 };
    assert(lv as nat == clamp_level(level));
    let text = inline_text(content);
    let ghost st = c@;
    let anchor = unique_slug(text.as_str(), &mut c.slugs);
    let ghost st1 = HS { slugs: slugs_after(st.slugs, plain_inlines(inlines_v(content@))), ..st };
    assert(c@ == st1);
    put_str(c, "<h");
    put_num(c, lv);
    put_str(c, " id=\"");
    put_str(c, anchor.as_str());
    put_str(c, "\">");
    assert(c@.out =~= st1.out + heading_open(clamp_level(level), anchor@));
    assert(c@ == put(st1, heading_open(clamp_level(level), anchor@)));
    emit_inlines(content, policy, probes, c);
    let ghost c1 = c@;
    put_str(c, "</h");
    put_num(c, lv);
    put_str(c, ">\n");
    assert(c@.out =~= c1.out + ("</h"@ + decimal(clamp_level(level)) + ">\n"@));
    assert(c@ == put(c1, "</h"@ + decimal(clamp_level(level)) + ">\n"@));
}

#[verifier::spinoff_prover]
#[verifier::rlimit(60)]
fn emit_block<'a>(b: &'a Block, policy: &SecurityPolicy, probes: &AssetProbes, c: &mut HtmlCtx<'a>)
    ensures
        final(c)@ == h_block(b@, env_of(policy, probes), old(c)@),
    decreases b,
{
    match b {
        Block::Paragraph(x) => {
            put_str(c, "<p>");
            emit_inlines(x, policy, probes, c);
            put_str(c, "</p>\n");
        },
        Block::CodeBlock { lang, code } => {
            let mermaid = match lang {
                Some(l) => same(l.as_str(), "mermaid"),
                None => false,
            };
            if mermaid {
                put_diag(c, owned("mermaid diagram rendered as source (diagram support is planned)"));
            }
            let ghost c0 = c@;
            match lang {
                Some(l) => {
                    put_str(c, "<pre><code class=\"language-");
                    put_esc(c, l.as_str());
                    put_str(c, "\">");
                },
                None => put_str(c, "<pre><code>"),
            }
            put_esc(c, code.as_str());
            put_str(c, "</code></pre>\n");
            assert(c@.out =~= c0.out + (code_open(opt_v(*lang)) + escaped(code@) + "</code></pre>\n"@));
        },
        Block::BlockQuote(bs) => {
            put_str(c, "<blockquote>\n");
            emit_blocks(bs, policy, probes, c);
            put_str(c, "</blockquote>\n");
        },
        Block::List { ordered, items } => {
            if *ordered { put_str(c, "<ol>\n"); } else { put_str(c, "<ul>\n"); }
            emit_items(items, policy, probes, c);
            if *ordered { put_str(c, "</ol>\n"); } else { put_str(c, "</ul>\n"); }
        },
        Block::Table { align, head, rows } => {
            put_str(c, "<table>\n");
            if head.len() > 0 {
                put_str(c, "<thead>\n<tr>");
                emit_cells(align, head, true, policy, probes, c);
                put_str(c, "</tr>\n</thead>\n");
            }
            put_str(c, "<tbody>\n");
            emit_rows(align, rows, policy, probes, c);
            put_str(c, "</tbody>\n</table>\n");
        },
        Block::ThematicBreak => put_str(c, "<hr>\n"),
        Block::DefinitionList(d) => {
            put_str(c, "<dl>\n");
            emit_defs(d, policy, probes, c);
            put_str(c, "</dl>\n");
        },
        Block::Admonition { kind, title, blocks } => {
            let ghost c0 = c@;
            put_str(c, "<div class=\"admonition ");
            match kind {
                AdmonitionKind::Note => put_str(c, "note"),
                AdmonitionKind::Tip => put_str(c, "tip"),
                AdmonitionKind::Important => put_str(c, "important"),
                AdmonitionKind::Warning => put_str(c, "warning"),
                AdmonitionKind::Caution => put_str(c, "caution"),
            }
            put_str(c, "\">\n<p class=\"admonition-title\">");
            put_esc(c, title.as_str());
            put_str(c, "</p>\n");
            assert(c@.out =~= c0.out + ("<div class=\"admonition "@ + kind_class(*kind) + "\">\n<p class=\"admonition-title\">"@ + escaped(title@) + "</p>\n"@));
            emit_blocks(blocks, policy, probes, c);
            put_str(c, "</div>\n");
        },
        Block::RawHtml(_) => put_diag(c, owned("raw HTML block dropped (disabled for safety)")),
        Block::Heading { level, content } => {
            let lv: u8 = *level;
            emit_heading(lv, content, policy, probes, c);
        },
    }
}

// ---------------------------------------------------------------- page (spec)

pub open spec fn justify_word(j: bool) -> Seq<char> {
    if j { "justify"@ } else { "left"@ }
}

pub open spec fn code_border(stroke: Option<Seq<char>>) -> Seq<char> {
    match stroke {
        Some(c) => "border: 1px solid "@ + c + ";"@,
        None => seq![],
    }
}

/// The page, typography and heading part of the style sheet.
pub open spec fn css_a(t: ThemeSpecV) -> Seq<char> {
    "body { margin: 0; background: #fff; color: #1a1a1a; }\nmain { max-width: 46em; margin: 0 auto; padding: 3em 1.5em;\n  font-family: \""@ + t.body_font + "\", serif; font-size: "@ + t.body_size_pt + "pt;\n  line-height: 1.55; text-align: "@ + justify_word(t.justify)
        + "; }\nh1, h2, h3, h4, h5, h6 { color: "@ + t.heading_color + "; line-height: 1.25; text-align: left; }\na { color: "@ + t.link_color
}

/// The title block and contents part of the style sheet.
pub open spec fn css_b(t: ThemeSpecV) -> Seq<char> {
    "; }\nheader.title-block { text-align: center; margin-bottom: 2.5em; }\nheader.title-block h1 { color: "@ + t.accent_color + "; margin-bottom: 0.2em; }\nheader.title-block .subtitle { font-size: 1.1em; margin: 0.2em 0; }\nheader.title-block .byline { color: #5a5a5a; font-size: 0.85em; }\nheader.title-block hr { width: 38%; border: 0; border-top: 1px solid "@ + t.accent_color + "; }\nnav.toc { border: 1px solid #ddd; border-radius: 4px; padding: 0.8em 1.2em;\n  margin-bottom: 2em; }\nnav.toc ul { list-style: none; padding-left: 0; margin: 0.3em 0; }\nnav.toc li { margin: 0.15em 0; }\nnav.toc li.lvl-2 { padding-left: 1.2em; }\nnav.toc li.lvl-3 { padding-left: 2.4em; }\nnav.toc li.lvl-4, nav.toc li.lvl-5, nav.toc li.lvl-6 { padding-left: 3.6em; }\npre { background: "@ + t.code_fill
}

/// The code, quote and remaining part of the style sheet.
pub open spec fn css_c(t: ThemeSpecV) -> Seq<char> {
    "; "@ + code_border(t.code_stroke) + " border-radius: 4px;\n  padding: 10px; overflow-x: auto; text-align: left; }\ncode { font-family: \""@ + t.mono_font + "\", monospace; font-size: 0.88em; }\n:not(pre) > code { background: "@ + t.code_fill
        + "; border-radius: 3px; padding: 0.1em 0.3em; }\nblockquote { border-left: 2px solid "@ + t.accent_color + "; margin-left: 0;\n  padding: 0.4em 0 0.4em 1em; color: #444; }\ntable { border-collapse: collapse; margin: 1em 0; }\nth, td { border: 1px solid #bbb; padding: 0.35em 0.7em; }\nth { background: #f5f6f7; }\nimg { max-width: 100%; }\nhr { border: 0; border-top: 1px solid #b4b4b4; }\n.admonition { border-left: 3px solid; border-radius: 3px; padding: 10px 14px;\n  margin: 1em 0; }\n.admonition-title { font-weight: bold; margin: 0 0 0.4em 0; }\n.admonition.note { border-color: #0969da; background: #f0f6ff; }\n.admonition.note .admonition-title { color: #0969da; }\n.admonition.tip { border-color: #1a7f37; background: #effaf1; }\n.admonition.tip .admonition-title { color: #1a7f37; }\n.admonition.important { border-color: #8250df; background: #f6f0fe; }\n.admonition.important .admonition-title { color: #8250df; }\n.admonition.warning { border-color: #9a6700; background: #fff8e5; }\n.admonition.warning .admonition-title { color: #9a6700; }\n.admonition.caution { border-color: #cf222e; background: #ffefef; }\n.admonition.caution .admonition-title { color: #cf222e; }\nsection.footnotes { margin-top: 2.5em; border-top: 1px solid #ccc;\n  font-size: 0.88em; }\nsup.footnote-ref a { text-decoration: none; }\n"@
}

/// The style sheet of the page, from the theme.
pub open spec fn css_text(t: ThemeSpecV) -> Seq<char> {
    css_a(t) + css_b(t) + css_c(t)
}

/// The `<title>` text: the resolved title, else `Document`.
pub open spec fn page_title(doc: DocumentV, o: OptionsV) -> Seq<char> {
    match title_of(doc, o.title) {
        Some(t) => t,
        None => "Document"@,
    }
}

pub open spec fn page_head(doc: DocumentV, o: OptionsV) -> Seq<char> {
    "<!DOCTYPE html>\n<html lang=\"en\">\n<head>\n<meta charset=\"utf-8\">\n"@
        + "<meta name=\"viewport\" content=\"width=device-width, initial-scale=1\">\n"@
        + "<title>"@ + escaped(page_title(doc, o)) + "</title>\n"@
        + "<style>\n"@ + css_text(spec_of(o.theme)) + "</style>\n</head>\n<body>\n<main>\n"@
}

/// The complete HTML page for `doc`.
pub open spec fn html_page(doc: DocumentV, o: OptionsV, probes: Seq<(String, AssetProbe)>) -> Seq<char> {
    page_head(doc, o) + html_body(doc, o, Env { policy: o.security, probes }).out + "</main>\n</body>\n</html>\n"@
}

/// The diagnostics of lowering `doc` to HTML.
pub open spec fn html_notes(doc: DocumentV, o: OptionsV, probes: Seq<(String, AssetProbe)>) -> Seq<Seq<char>> {
    html_body(doc, o, Env { policy: o.security, probes }).diags
}

// ---------------------------------------------------------------- page (exec)

fn push_css_a(s: &mut String, t: &ThemeSpec)
    ensures
        final(s)@ == old(s)@ + css_a(t@),
{
    s.append("body { margin: 0; background: #fff; color: #1a1a1a; }\nmain { max-width: 46em; margin: 0 auto; padding: 3em 1.5em;\n  font-family: \"");
    s.append(t.body_font.as_str());
    s.append("\", serif; font-size: ");
    s.append(t.body_size_pt.as_str());
    s.append("pt;\n  line-height: 1.55; text-align: ");
    if t.justify { s.append("justify"); } else { s.append("left"); }
    s.append("; }\nh1, h2, h3, h4, h5, h6 { color: ");
    s.append(t.heading_color.as_str());
    s.append("; line-height: 1.25; text-align: left; }\na { color: ");
    s.append(t.link_color.as_str());
    assert(s@ =~= old(s)@ + css_a(t@));
}

fn push_css_b(s: &mut String, t: &ThemeSpec)
    ensures
        final(s)@ == old(s)@ + css_b(t@),
{
    s.append("; }\nheader.title-block { text-align: center; margin-bottom: 2.5em; }\nheader.title-block h1 { color: ");
    s.append(t.accent_color.as_str());
    s.append("; margin-bottom: 0.2em; }\nheader.title-block .subtitle { font-size: 1.1em; margin: 0.2em 0; }\nheader.title-block .byline { color: #5a5a5a; font-size: 0.85em; }\nheader.title-block hr { width: 38%; border: 0; border-top: 1px solid ");
    s.append(t.accent_color.as_str());
    s.append("; }\nnav.toc { border: 1px solid #ddd; border-radius: 4px; padding: 0.8em 1.2em;\n  margin-bottom: 2em; }\nnav.toc ul { list-style: none; padding-left: 0; margin: 0.3em 0; }\nnav.toc li { margin: 0.15em 0; }\nnav.toc li.lvl-2 { padding-left: 1.2em; }\nnav.toc li.lvl-3 { padding-left: 2.4em; }\nnav.toc li.lvl-4, nav.toc li.lvl-5, nav.toc li.lvl-6 { padding-left: 3.6em; }\npre { background: ");
    s.append(t.code_fill.as_str());
    assert(s@ =~= old(s)@ + css_b(t@));
}

fn push_css_c(s: &mut String, t: &ThemeSpec)
    ensures
        final(s)@ == old(s)@ + css_c(t@),
{
    s.append("; ");
    let ghost s0 = s@;
    match &t.code_stroke {
        Some(c) => {
            s.append("border: 1px solid ");
            s.append(c.as_str());
            s.append(";");
        },
        None => {},
    }
    assert(s@ =~= s0 + code_border(opt_v(t.code_stroke)));
    s.append(" border-radius: 4px;\n  padding: 10px; overflow-x: auto; text-align: left; }\ncode { font-family: \"");
    s.append(t.mono_font.as_str());
    s.append("\", monospace; font-size: 0.88em; }\n:not(pre) > code { background: ");
    s.append(t.code_fill.as_str());
    s.append("; border-radius: 3px; padding: 0.1em 0.3em; }\nblockquote { border-left: 2px solid ");
    s.append(t.accent_color.as_str());
    s.append("; margin-left: 0;\n  padding: 0.4em 0 0.4em 1em; color: #444; }\ntable { border-collapse: collapse; margin: 1em 0; }\nth, td { border: 1px solid #bbb; padding: 0.35em 0.7em; }\nth { background: #f5f6f7; }\nimg { max-width: 100%; }\nhr { border: 0; border-top: 1px solid #b4b4b4; }\n.admonition { border-left: 3px solid; border-radius: 3px; padding: 10px 14px;\n  margin: 1em 0; }\n.admonition-title { font-weight: bold; margin: 0 0 0.4em 0; }\n.admonition.note { border-color: #0969da; background: #f0f6ff; }\n.admonition.note .admonition-title { color: #0969da; }\n.admonition.tip { border-color: #1a7f37; background: #effaf1; }\n.admonition.tip .admonition-title { color: #1a7f37; }\n.admonition.important { border-color: #8250df; background: #f6f0fe; }\n.admonition.important .admonition-title { color: #8250df; }\n.admonition.warning { border-color: #9a6700; background: #fff8e5; }\n.admonition.warning .admonition-title { color: #9a6700; }\n.admonition.caution { border-color: #cf222e; background: #ffefef; }\n.admonition.caution .admonition-title { color: #cf222e; }\nsection.footnotes { margin-top: 2.5em; border-top: 1px solid #ccc;\n  font-size: 0.88em; }\nsup.footnote-ref a { text-decoration: none; }\n");
    assert(s@ =~= old(s)@ + css_c(t@));
}

/// The page's style sheet for theme `t`.
pub fn css(t: &ThemeSpec) -> (s: String)
    ensures
        s@ == css_text(t@),
{
    let mut s = String::new();
    push_css_a(&mut s, t);
    push_css_b(&mut s, t);
    push_css_c(&mut s, t);
    assert(s@ =~= css_text(t@));
    s
}

fn emit_footnotes<'a>(policy: &SecurityPolicy, probes: &AssetProbes, c: &mut HtmlCtx<'a>)
    ensures
        final(c)@ == h_footnotes(env_of(policy, probes), old(c)@),
{
    let ghost e = env_of(policy, probes);
    proof { lemma_notes_v_len(c.notes@); }
    if c.notes.len() == 0 {
        return;
    }
    let mut notes: Vec<&'a Vec<Block>> = Vec::new();
    std::mem::swap(&mut notes, &mut c.notes);
    assert(notes_v(Seq::<&Vec<Block>>::empty()) =~= Seq::<Seq<BlockV>>::empty());
    put_str(c, "<section class=\"footnotes\">\n<ol>\n");
    let ghost start = c@;
    assert(start == put(HS { notes: seq![], ..old(c)@ }, "<section class=\"footnotes\">\n<ol>\n"@));
    let mut i: usize = 0;
    while i < notes.len()
        invariant
            i <= notes@.len(),
            e == env_of(policy, probes),
            c@ == h_note_items(notes_v(notes@.take(i as int)), e, start),
        decreases notes.len() - i,
    {
        let ghost nv = notes_v(notes@.take(i + 1));
        let ghost prev = c@;
        proof {
            assert(notes@.take(i + 1).drop_last() =~= notes@.take(i as int));
            lemma_notes_v_len(notes@.take(i + 1));
            assert(nv == notes_v(notes@.take(i as int)).push(blocks_v(notes@[i as int]@)));
            assert(nv.drop_last() =~= notes_v(notes@.take(i as int)));
        }
        put_str(c, "<li id=\"fn");
        put_num(c, (i + 1) as u64);
        put_str(c, "\">\n");
        let ghost hdr = "<li id=\"fn"@ + decimal((i + 1) as nat) + "\">\n"@;
        assert(c@.out =~= prev.out + hdr);
        assert(c@ == put(prev, hdr));
        let ghost c0 = c@;
        emit_blocks(notes[i], policy, probes, c);
        assert(c@ == h_blocks(nv.last(), e, c0));
        put_str(c, "</li>\n");
        assert(c@ == h_note_items(nv, e, start));
        i = i + 1;
    }
    assert(notes@.take(i as int) =~= notes@);
    put_str(c, "</ol>\n</section>\n");
}

fn push_toc(s: &mut String, blocks: &Vec<Block>)
    ensures
        final(s)@ == old(s)@ + toc_html(blocks_v(blocks@)),
{
    let mut entries = String::new();
    let mut slugs = Slugs::new();
    let mut any = false;
    let mut i: usize = 0;
    while i < blocks.len()
        invariant
            i <= blocks@.len(),
            (entries@, slugs@) == toc_fold(blocks_v(blocks@.take(i as int))),
            any <==> entries@.len() > 0,
        decreases blocks.len() - i,
    {
        proof { lemma_blocks_v_step(blocks@, i as int); }
        match &blocks[i] {
            Block::Heading { level, content } => {
                let text = inline_text(content);
                let anchor = unique_slug(text.as_str(), &mut slugs);
                let ghost e0 = entries@;
                entries.append("<li class=\"lvl-");
                let d = decimal_string(*level as u64);
                entries.append(d.as_str());
                entries.append("\"><a href=\"#");
                entries.append(anchor.as_str());
                entries.append("\">");
                push_esc(&mut entries, text.as_str());
                entries.append("</a></li>\n");
                assert(entries@ =~= e0 + "<li class=\"lvl-"@ + decimal(*level as nat) + "\"><a href=\"#"@ + anchor@ + "\">"@ + escaped(text@) + "</a></li>\n"@);
                any = true;
            },
            _ => {},
        }
        i = i + 1;
    }
    assert(blocks@.take(i as int) =~= blocks@);
    if any {
        s.append("<nav class=\"toc\">\n<strong>Contents</strong>\n<ul>\n");
        s.append(entries.as_str());
        s.append("</ul>\n</nav>\n");
    }
    assert(s@ =~= old(s)@ + toc_html(blocks_v(blocks@)));
}

fn push_byline(s: &mut String, meta: &Meta)
    ensures
        final(s)@ == old(s)@ + html_byline(meta@),
{
    match (&meta.author, &meta.date) {
        (Some(a), Some(d)) => {
            s.append("<p class=\"byline\">");
            push_esc(s, a.as_str());
            s.append(" — ");
            push_esc(s, d.as_str());
            s.append("</p>\n");
        },
        (Some(a), None) => {
            s.append("<p class=\"byline\">");
            push_esc(s, a.as_str());
            s.append("</p>\n");
        },
        (None, Some(d)) => {
            s.append("<p class=\"byline\">");
            push_esc(s, d.as_str());
            s.append("</p>\n");
        },
        (None, None) => {},
    }
    assert(s@ =~= old(s)@ + html_byline(meta@));
}

fn push_title_block(s: &mut String, meta: &Meta, title: &Option<String>)
    ensures
        final(s)@ == old(s)@ + html_title_block(meta@, opt_v(*title)),
{
    let t = match title {
        Some(t) => t,
        None => {
            assert(old(s)@ + seq![] =~= old(s)@);
            return;
        },
    };
    if blank(t.as_str()) {
        assert(old(s)@ + seq![] =~= old(s)@);
        return;
    }
    let ghost s0 = s@;
    s.append("<header class=\"title-block\">\n<h1>");
    push_esc(s, t.as_str());
    s.append("</h1>\n");
    let ghost s1 = s@;
    match &meta.subtitle {
        Some(sub) => {
            s.append("<p class=\"subtitle\">");
            push_esc(s, sub.as_str());
            s.append("</p>\n");
        },
        None => {},
    }
    let ghost s2 = s@;
    push_byline(s, meta);
    assert(s@ =~= s2 + html_byline(meta@));
    s.append("<hr>\n</header>\n");
    assert(s@ =~= old(s)@ + html_title_block(meta@, opt_v(*title)));
}

/// Move the messages of `from` to the end of `to`.
pub(crate) fn append_diags(to: &mut Vec<Diagnostic>, from: Vec<Diagnostic>)
    ensures
        messages(final(to)@) == messages(old(to)@) + messages(from@),
{
    let mut i: usize = 0;
    while i < from.len()
        invariant
            i <= from@.len(),
            messages(to@) == messages(old(to)@) + messages(from@.take(i as int)),
        decreases from.len() - i,
    {
        proof { lemma_messages_step(from@, i as int); }
        let ghost before = messages(to@);
        note(to, from[i].message.clone());
        assert(messages(to@) =~= messages(old(to)@) + messages(from@.take(i + 1)));
        i = i + 1;
    }
    assert(from@.take(i as int) =~= from@);
}

/// Produce the complete HTML page for `doc`, recording diagnostics for denied
/// images, unrendered diagrams and dropped raw HTML.
pub fn lower(doc: &Document, opts: &RenderOptions, probes: &AssetProbes, diags: &mut Vec<Diagnostic>) -> (s: String)
    ensures
        s@ == html_page(doc@, opts@, probes.entries@),
        messages(final(diags)@) == messages(old(diags)@) + html_notes(doc@, opts@, probes.entries@),
{
    let spec = opts.theme.spec();
    let title = doc.resolve_title(title_override(opts));
    let mut c = HtmlCtx { out: String::new(), slugs: Slugs::new(), notes: Vec::new(), diags: Vec::new() };
    push_title_block(&mut c.out, &doc.meta, &title);
    if opts.toc {
        push_toc(&mut c.out, &doc.blocks);
    }
    let ghost e = env_of(&opts.security, probes);
    let ghost start = c@;
    assert(notes_v(Seq::<&Vec<Block>>::empty()) =~= Seq::<Seq<BlockV>>::empty());
    assert(messages(Seq::<Diagnostic>::empty()) =~= Seq::<Seq<char>>::empty());
    assert(start.out =~= html_title_block(doc.meta@, title_of(doc@, opts@.title)) + (if opts@.toc { toc_html(doc@.blocks) } else { seq![] }));
    emit_blocks(&doc.blocks, &opts.security, probes, &mut c);
    emit_footnotes(&opts.security, probes, &mut c);
    assert(c@ == html_body(doc@, opts@, e));
    let mut s = String::new();
    s.append("<!DOCTYPE html>\n<html lang=\"en\">\n<head>\n<meta charset=\"utf-8\">\n");
    s.append("<meta name=\"viewport\" content=\"width=device-width, initial-scale=1\">\n");
    s.append("<title>");
    match &title {
        Some(t) => push_esc(&mut s, t.as_str()),
        None => push_esc(&mut s, "Document"),
    }
    s.append("</title>\n");
    s.append("<style>\n");
    let sheet = css(&spec);
    s.append(sheet.as_str());
    s.append("</style>\n</head>\n<body>\n<main>\n");
    assert(s@ =~= page_head(doc@, opts@));
    s.append(c.out.as_str());
    s.append("</main>\n</body>\n</html>\n");
    append_diags(diags, c.diags);
    assert(s@ =~= html_page(doc@, opts@, probes.entries@));
    s
}

/// Renders a document to one standalone HTML page.
pub struct HtmlRenderer;

impl Renderer for HtmlRenderer {
    fn format(&self) -> (f: OutputFormat)
        ensures
            f == OutputFormat::Html,
    {
        OutputFormat::Html
    }

    /// The page as UTF-8, with its diagnostics.
    fn render(&self, doc: &Document, opts: &RenderOptions, probes: &AssetProbes, files: &AssetFiles) -> (r: Result<Rendered, String>)
        ensures
            r matches Ok(out) && out.bytes@ == encode_utf8(html_page(doc@, opts@, probes.entries@))
                && messages(out.diagnostics@) == html_notes(doc@, opts@, probes.entries@)
                && out.handed@ == Handover::Own,
    {
        let mut diagnostics: Vec<Diagnostic> = Vec::new();
        let page = lower(doc, opts, probes, &mut diagnostics);
        assert(messages(Seq::<Diagnostic>::empty()) + html_notes(doc@, opts@, probes.entries@) =~= html_notes(doc@, opts@, probes.entries@));
        Ok(Rendered { bytes: utf8_bytes(page), diagnostics, handed: Ghost(Handover::Own) })
    }
}

/// `b` continues `a`: `a` is a prefix of `b`.
pub open spec fn continues(b: Seq<char>, a: Seq<char>) -> bool {
    a.len() <= b.len() && b.take(a.len() as int) == a
}

proof fn lemma_wrap(a: Seq<char>, t: Seq<char>, h: Seq<char>, e: Seq<char>)
    requires
        continues(h, a + t),
    ensures
        continues(h + e, a + t),
        continues(h + e, a),
{
    assert((h + e).take((a + t).len() as int) =~= h.take((a + t).len() as int));
    assert forall|k: int| 0 <= k < a.len() implies #[trigger] (h + e).take(a.len() as int)[k] == a[k] by {
        assert(h.take((a + t).len() as int)[k] == (a + t)[k]);
    }
    assert((h + e).take(a.len() as int) =~= a);
}

proof fn lemma_inline_out(i: InlineV, env: Env, st: HS)
    ensures
        continues(h_inline(i, env, st).out, st.out),
    decreases i, 1nat,
{
    match i {
        InlineV::Emph(c) => {
            lemma_inlines_out(c, env, put(st, "<em>"@));
            lemma_wrap(st.out, "<em>"@, h_inlines(c, env, put(st, "<em>"@)).out, "</em>"@);
        },
        InlineV::Strong(c) => {
            lemma_inlines_out(c, env, put(st, "<strong>"@));
            lemma_wrap(st.out, "<strong>"@, h_inlines(c, env, put(st, "<strong>"@)).out, "</strong>"@);
        },
        InlineV::Strikethrough(c) => {
            lemma_inlines_out(c, env, put(st, "<del>"@));
            lemma_wrap(st.out, "<del>"@, h_inlines(c, env, put(st, "<del>"@)).out, "</del>"@);
        },
        InlineV::Superscript(c) => {
            lemma_inlines_out(c, env, put(st, "<sup>"@));
            lemma_wrap(st.out, "<sup>"@, h_inlines(c, env, put(st, "<sup>"@)).out, "</sup>"@);
        },
        InlineV::Link { href, content } => {
            let t = "<a href=\""@ + escaped(href) + "\">"@;
            lemma_inlines_out(content, env, put(st, t));
            lemma_wrap(st.out, t, h_inlines(content, env, put(st, t)).out, "</a>"@);
        },
        _ => {
            assert(h_inline(i, env, st).out.take(st.out.len() as int) =~= st.out);
        },
    }
}

proof fn lemma_inlines_out(s: Seq<InlineV>, env: Env, st: HS)
    ensures
        continues(h_inlines(s, env, st).out, st.out),
    decreases s, 0nat,
{
    if s.len() > 0 {
        let prev = h_inlines(s.drop_last(), env, st);
        lemma_inlines_out(s.drop_last(), env, st);
        lemma_inline_out(s.last(), env, prev);
        let o = h_inline(s.last(), env, prev).out;
        assert forall|k: int| 0 <= k < st.out.len() implies #[trigger] o.take(st.out.len() as int)[k] == st.out[k] by {
            assert(o.take(prev.out.len() as int)[k] == prev.out[k]);
            assert(prev.out.take(st.out.len() as int)[k] == st.out[k]);
        }
        assert(o.take(st.out.len() as int) =~= st.out);
    } else {
        assert(st.out.take(st.out.len() as int) =~= st.out);
    }
}

/// Struck-through text is struck through: its HTML opens with `<del>` right
/// after what was written before, then holds its content's HTML, and closes
/// with `</del>`; emphasis, by contrast, is set in `<em>` … `</em>`.
pub proof fn law_strikethrough_is_del(c: Seq<InlineV>, env: Env, st: HS)
    ensures
        continues(h_inline(InlineV::Strikethrough(c), env, st).out, st.out + "<del>"@),
        crate::text::ends_with(h_inline(InlineV::Strikethrough(c), env, st).out, "</del>"@),
        h_inline(InlineV::Strikethrough(c), env, st).out
            == h_inlines(c, env, HS { out: st.out + "<del>"@, ..st }).out + "</del>"@,
        continues(h_inline(InlineV::Emph(c), env, st).out, st.out + "<em>"@),
        crate::text::ends_with(h_inline(InlineV::Emph(c), env, st).out, "</em>"@),
{
    lemma_inlines_out(c, env, put(st, "<del>"@));
    lemma_wrap(st.out, "<del>"@, h_inlines(c, env, put(st, "<del>"@)).out, "</del>"@);
    lemma_inlines_out(c, env, put(st, "<em>"@));
    lemma_wrap(st.out, "<em>"@, h_inlines(c, env, put(st, "<em>"@)).out, "</em>"@);
    let a = h_inlines(c, env, put(st, "<del>"@)).out;
    assert((a + "</del>"@).skip((a + "</del>"@).len() - "</del>"@.len()) =~= "</del>"@);
    let b = h_inlines(c, env, put(st, "<em>"@)).out;
    assert((b + "</em>"@).skip((b + "</em>"@).len() - "</em>"@.len()) =~= "</em>"@);
}

/// Strong text is set in `<strong>` … `</strong>` and superscript in
/// `<sup>` … `</sup>`, each opening right after what was written before.
pub proof fn law_strong_and_sup(c: Seq<InlineV>, env: Env, st: HS)
    ensures
        continues(h_inline(InlineV::Strong(c), env, st).out, st.out + "<strong>"@),
        crate::text::ends_with(h_inline(InlineV::Strong(c), env, st).out, "</strong>"@),
        continues(h_inline(InlineV::Superscript(c), env, st).out, st.out + "<sup>"@),
        crate::text::ends_with(h_inline(InlineV::Superscript(c), env, st).out, "</sup>"@),
{
    lemma_inlines_out(c, env, put(st, "<strong>"@));
    lemma_wrap(st.out, "<strong>"@, h_inlines(c, env, put(st, "<strong>"@)).out, "</strong>"@);
    lemma_inlines_out(c, env, put(st, "<sup>"@));
    lemma_wrap(st.out, "<sup>"@, h_inlines(c, env, put(st, "<sup>"@)).out, "</sup>"@);
    let a = h_inlines(c, env, put(st, "<strong>"@)).out;
    assert((a + "</strong>"@).skip((a + "</strong>"@).len() - "</strong>"@.len()) =~= "</strong>"@);
    let b = h_inlines(c, env, put(st, "<sup>"@)).out;
    assert((b + "</sup>"@).skip((b + "</sup>"@).len() - "</sup>"@.len()) =~= "</sup>"@);
}

} // verus!
