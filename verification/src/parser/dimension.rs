//! Image width attributes: `{width=50%}` after an image, and the check that
//! a dimension is a non-negative finite number followed by a known unit.
//!
//! A number is checked the way `f64`'s `FromStr` reads it: an optional sign,
//! digits with an optional fraction, an optional exponent. It must round to a
//! finite value that is not below zero; `-0` and negative values that round
//! to `-0` count, as `-0.0 >= 0.0`.

use vstd::prelude::*;
use crate::text::{chars_of, char_is_ws, has_at, is_ws, push_range, starts_with, string_of_range};

verus! {

/// The digits of 2^1024 − 2^970: the least value that rounds to infinity
/// as an `f64` (it lies halfway above the largest finite `f64`, and the
/// tie goes to infinity). Its magnitude: 309 digits before the point.
pub const HUGE_DIGITS: &'static str = "179769313486231580793728971405303415079934132710037826936173778980444968292764750946649017977587207096330286416692887910946555547851940402630657488671505820681908902000708383676273854845817711531764475730270069855571366959622842914819860834936475292719074168444365510704342711559699508093042880177904174497792";

/// The significant digits of 2^−1075 (that is 5^1075 · 10^−1075): the
/// largest value that rounds to zero as an `f64`. It is 0.247… · 10^−323.
pub const TINY_DIGITS: &'static str = "24703282292062327208828439643411068618252990130716238221279284125033775363510437593264991818081799618989828234772285886546332835517796989819938739800539093906315035659515570226392290858392449105184435931802849936536152500319370457678249219365623669863658480757001585769269903706311928279558551332927834338409351978015531246597263579574622766465272827220056374006485499977096599470454020828166226237857393450736339007967761930577506740176324673600968951340535537458516661134223766678604162159680461914467291840300530057530849048765391711386591646239524912623653881879636239373280423891018672348497668235089863388587925628302755995657524455507255189313690836254779186948667994968324049705821028513185451396213837722826145437693412532098591327667236328125";

/// A power of two far above any number of digits a string can hold.
pub const EXP_CAP: u128 = 1267650600228229401496703205376;

pub open spec fn is_digit(c: char) -> bool {
    '0' <= c && c <= '9'
}

pub open spec fn digit_of(c: char) -> int {
    c as int - '0' as int
}

/// The first index at or after `i` that does not hold a digit.
pub open spec fn digit_run(s: Seq<char>, i: int) -> int
    decreases s.len() - i,
{
    if i < 0 || i >= s.len() || !is_digit(s[i]) {
        i
    } else {
        digit_run(s, i + 1)
    }
}

/// The value of a string of decimal digits.
pub open spec fn dec_value(s: Seq<char>) -> nat
    decreases s.len(),
{
    if s.len() == 0 {
        0
    } else {
        (dec_value(s.drop_last()) * 10 + digit_of(s.last())) as nat
    }
}

/// The parts of a decimal number text: its sign, all its digits (integer
/// part then fraction), and the power of ten that scales them.
pub struct NumberParts {
    pub neg: bool,
    pub digits: Seq<char>,
    pub exp: int,
}

/// The parts of `n`, where `n` is `[+-]? digits [. digits]? ([eE] [+-]? digits)?`
/// with at least one digit before the exponent.
pub open spec fn number_parts(n: Seq<char>) -> Option<NumberParts> {
    let s0: int = if n.len() > 0 && (n[0] == '+' || n[0] == '-') { 1 } else { 0 };
    let neg = n.len() > 0 && n[0] == '-';
    let ip = digit_run(n, s0);
    let has_dot = ip < n.len() && n[ip] == '.';
    let fp = if has_dot { digit_run(n, ip + 1) } else { ip };
    let frac_len: int = if has_dot { fp - (ip + 1) } else { 0 };
    let digits = n.subrange(s0, ip) + (if has_dot { n.subrange(ip + 1, fp) } else { seq![] });
    if digits.len() == 0 {
        None
    } else if fp >= n.len() {
        Some(NumberParts { neg, digits, exp: -frac_len })
    } else if n[fp] == 'e' || n[fp] == 'E' {
        let signed = fp + 1 < n.len() && (n[fp + 1] == '+' || n[fp + 1] == '-');
        let eneg = fp + 1 < n.len() && n[fp + 1] == '-';
        let es = if signed { fp + 2 } else { fp + 1 };
        let ee = digit_run(n, es);
        if ee == es || ee != n.len() {
            None
        } else {
            let ev = dec_value(n.subrange(es, ee)) as int;
            Some(NumberParts { neg, digits, exp: (if eneg { -ev } else { ev }) - frac_len })
        }
    } else {
        None
    }
}

/// `s` without leading `'0'`s.
pub open spec fn strip_zeros(s: Seq<char>) -> Seq<char>
    decreases s.len(),
{
    if s.len() > 0 && s[0] == '0' {
        strip_zeros(s.drop_first())
    } else {
        s
    }
}

pub open spec fn head_or_zero(s: Seq<char>) -> char {
    if s.len() > 0 { s[0] } else { '0' }
}

pub open spec fn tail_of(s: Seq<char>) -> Seq<char> {
    if s.len() > 0 { s.drop_first() } else { seq![] }
}

/// Comparison of `0.a` with `0.b` as decimal fractions: −1, 0 or 1.
pub open spec fn frac_order(a: Seq<char>, b: Seq<char>) -> int
    decreases a.len() + b.len(),
{
    if a.len() == 0 && b.len() == 0 {
        0
    } else if head_or_zero(a) < head_or_zero(b) {
        -1
    } else if head_or_zero(a) > head_or_zero(b) {
        1
    } else {
        frac_order(tail_of(a), tail_of(b))
    }
}

/// Whether a number with these parts reads as an `f64` that is finite and
/// not below zero.
pub open spec fn parts_finite_nonneg(p: NumberParts) -> bool {
    let d = strip_zeros(p.digits);
    if d.len() == 0 {
        true
    } else {
        let m = d.len() + p.exp;
        if p.neg {
            m < -323 || (m == -323 && frac_order(d, TINY_DIGITS@) <= 0)
        } else {
            m < 309 || (m == 309 && frac_order(d, HUGE_DIGITS@) < 0)
        }
    }
}

/// Whether `n` reads as an `f64` that is finite and not below zero.
pub open spec fn finite_nonneg(n: Seq<char>) -> bool {
    match number_parts(n) {
        None => false,
        Some(p) => parts_finite_nonneg(p),
    }
}

/// `v` is `number ++ unit` with a non-empty number that `finite_nonneg` accepts.
pub open spec fn dim_with(v: Seq<char>, unit: Seq<char>) -> bool {
    v.len() > unit.len() && v.skip(v.len() - unit.len()) == unit && finite_nonneg(v.take(v.len() - unit.len()))
}

/// A safe-to-interpolate dimension: a number followed by `%`, `cm`, `mm`,
/// `in`, `pt` or `em`.
pub open spec fn valid_dimension(v: Seq<char>) -> bool {
    ||| dim_with(v, seq!['%'])
    ||| dim_with(v, seq!['c', 'm'])
    ||| dim_with(v, seq!['m', 'm'])
    ||| dim_with(v, seq!['i', 'n'])
    ||| dim_with(v, seq!['p', 't'])
    ||| dim_with(v, seq!['e', 'm'])
}

// ---------------------------------------------------------------- reading numbers (exec)

pub proof fn lemma_digit_run(s: Seq<char>, i: int)
    requires
        0 <= i <= s.len(),
    ensures
        i <= digit_run(s, i) <= s.len(),
        forall|k: int| i <= k < digit_run(s, i) ==> is_digit(#[trigger] s[k]),
        digit_run(s, i) < s.len() ==> !is_digit(s[digit_run(s, i)]),
    decreases s.len() - i,
{
    if i < s.len() && is_digit(s[i]) {
        lemma_digit_run(s, i + 1);
    }
}

pub(crate) fn digit_run_in(v: &Vec<char>, i: usize) -> (r: usize)
    requires
        i <= v@.len(),
    ensures
        r == digit_run(v@, i as int),
        i <= r <= v@.len(),
{
    proof { lemma_digit_run(v@, i as int); }
    let mut j = i;
    while j < v.len() && '0' <= v[j] && v[j] <= '9'
        invariant
            i <= j <= v@.len(),
            digit_run(v@, i as int) == digit_run(v@, j as int),
        decreases v.len() - j,
    {
        j = j + 1;
    }
    j
}

/// The value of the digits `v[from..to]`, saturated at `EXP_CAP`.
pub(crate) fn saturated_value(v: &Vec<char>, from: usize, to: usize) -> (r: u128)
    requires
        from <= to <= v@.len(),
        forall|k: int| from <= k < to ==> is_digit(#[trigger] v@[k]),
    ensures
        r <= EXP_CAP,
        r < EXP_CAP ==> r == dec_value(v@.subrange(from as int, to as int)),
        r == EXP_CAP ==> dec_value(v@.subrange(from as int, to as int)) >= EXP_CAP,
{
    let mut r: u128 = 0;
    let mut k = from;
    assert(v@.subrange(from as int, from as int) =~= Seq::<char>::empty());
    while k < to
        invariant
            from <= k <= to <= v@.len(),
            forall|j: int| from <= j < to ==> is_digit(#[trigger] v@[j]),
            r <= EXP_CAP,
            r < EXP_CAP ==> r == dec_value(v@.subrange(from as int, k as int)),
            r == EXP_CAP ==> dec_value(v@.subrange(from as int, k as int)) >= EXP_CAP,
        decreases to - k,
    {
        assert(v@.subrange(from as int, k + 1).drop_last() =~= v@.subrange(from as int, k as int));
        assert(is_digit(v@[k as int]));
        let d = (v[k] as u32 - '0' as u32) as u128;
        assert(d as int == digit_of(v@[k as int]));
        if r < EXP_CAP {
            let nr = r * 10 + d;
            if nr >= EXP_CAP {
                r = EXP_CAP;
            } else {
                r = nr;
            }
        }
        k = k + 1;
    }
    r
}

pub open spec fn tail_from(s: Seq<char>, k: int) -> Seq<char> {
    if 0 <= k < s.len() { s.skip(k) } else { seq![] }
}

/// `frac_order(a[from..], b)`.
pub(crate) fn frac_order_in(a: &Vec<char>, from: usize, b: &Vec<char>) -> (r: i8)
    requires
        from <= a@.len(),
    ensures
        r as int == frac_order(a@.skip(from as int), b@),
{
    let mut i = from;
    let mut j: usize = 0;
    assert(tail_from(a@, from as int) =~= a@.skip(from as int));
    assert(tail_from(b@, 0) =~= b@);
    while i < a.len() || j < b.len()
        invariant
            from <= i <= a@.len(),
            j <= b@.len(),
            frac_order(a@.skip(from as int), b@) == frac_order(tail_from(a@, i as int), tail_from(b@, j as int)),
        decreases (a@.len() - i) + (b@.len() - j),
    {
        let x = if i < a.len() { a[i] } else { '0' };
        let y = if j < b.len() { b[j] } else { '0' };
        assert(head_or_zero(tail_from(a@, i as int)) == x);
        assert(head_or_zero(tail_from(b@, j as int)) == y);
        if x < y {
            return -1;
        }
        if x > y {
            return 1;
        }
        assert(tail_of(tail_from(a@, i as int)) =~= tail_from(a@, if i < a.len() { i + 1 } else { i as int }));
        assert(tail_of(tail_from(b@, j as int)) =~= tail_from(b@, if j < b.len() { j + 1 } else { j as int }));
        if i < a.len() {
            i = i + 1;
        }
        if j < b.len() {
            j = j + 1;
        }
    }
    assert(tail_from(a@, i as int) =~= Seq::<char>::empty());
    assert(tail_from(b@, j as int) =~= Seq::<char>::empty());
    0
}

proof fn lemma_strip_zeros(s: Seq<char>, z: int)
    requires
        0 <= z <= s.len(),
        forall|k: int| 0 <= k < z ==> s[k] == '0',
        z < s.len() ==> s[z] != '0',
    ensures
        strip_zeros(s) == s.skip(z),
    decreases z,
{
    if z > 0 {
        assert forall|k: int| 0 <= k < z - 1 implies s.drop_first()[k] == '0' by {
            assert(s.drop_first()[k] == s[k + 1]);
        }
        lemma_strip_zeros(s.drop_first(), z - 1);
        assert(s.drop_first().skip(z - 1) =~= s.skip(z));
    } else {
        assert(s.skip(0) =~= s);
    }
}

/// A number text as read: sign, digits, exponent sign, exponent value
/// (saturated at `EXP_CAP`) and the count of fraction digits.
pub struct NumberRead {
    pub neg: bool,
    pub digits: Vec<char>,
    pub exp_neg: bool,
    pub exp_value: u128,
    pub frac_len: usize,
}

pub open spec fn read_matches(r: NumberRead, p: NumberParts) -> bool {
    &&& r.neg == p.neg
    &&& r.digits@ == p.digits
    &&& r.exp_value <= EXP_CAP
    &&& r.exp_value < EXP_CAP ==> p.exp == (if r.exp_neg { -(r.exp_value as int) } else { r.exp_value as int }) - r.frac_len
    &&& r.exp_value == EXP_CAP && r.exp_neg ==> p.exp <= -(EXP_CAP as int)
    &&& r.exp_value == EXP_CAP && !r.exp_neg ==> p.exp >= EXP_CAP - r.frac_len
}

fn read_number(n: &Vec<char>) -> (r: Option<NumberRead>)
    ensures
        match r {
            None => number_parts(n@) is None,
            Some(x) => number_parts(n@) matches Some(p) && read_matches(x, p),
        },
{
    let len = n.len();
    let s0: usize = if len > 0 && (n[0] == '+' || n[0] == '-') { 1 } else { 0 };
    let neg = len > 0 && n[0] == '-';
    let ip = digit_run_in(n, s0);
    let has_dot = ip < len && n[ip] == '.';
    let fp = if has_dot { digit_run_in(n, ip + 1) } else { ip };
    let frac_len: usize = if has_dot { fp - (ip + 1) } else { 0 };
    let mut digits: Vec<char> = Vec::new();
    push_range(&mut digits, n, s0, ip);
    if has_dot {
        push_range(&mut digits, n, ip + 1, fp);
    }
    let ghost sd = n@.subrange(s0 as int, ip as int) + (if has_dot { n@.subrange(ip + 1, fp as int) } else { seq![] });
    assert(digits@ =~= sd);
    if digits.len() == 0 {
        return None;
    }
    if fp >= len {
        return Some(NumberRead { neg, digits, exp_neg: false, exp_value: 0, frac_len });
    }
    if !(n[fp] == 'e' || n[fp] == 'E') {
        return None;
    }
    let signed = fp + 1 < len && (n[fp + 1] == '+' || n[fp + 1] == '-');
    let eneg = fp + 1 < len && n[fp + 1] == '-';
    let es = if signed { fp + 2 } else { fp + 1 };
    let ee = digit_run_in(n, es);
    if ee == es || ee != len {
        return None;
    }
    proof { lemma_digit_run(n@, es as int); }
    let ev = saturated_value(n, es, ee);
    Some(NumberRead { neg, digits, exp_neg: eneg, exp_value: ev, frac_len })
}

fn parts_ok(r: &NumberRead, Ghost(p): Ghost<NumberParts>) -> (b: bool)
    requires
        read_matches(*r, p),
    ensures
        b == parts_finite_nonneg(p),
{
    let digits = &r.digits;
    let mut z: usize = 0;
    while z < digits.len() && digits[z] == '0'
        invariant
            z <= digits@.len(),
            forall|k: int| 0 <= k < z ==> digits@[k] == '0',
        decreases digits.len() - z,
    {
        z = z + 1;
    }
    proof { lemma_strip_zeros(digits@, z as int); }
    if z == digits.len() {
        assert(digits@.skip(z as int) =~= Seq::<char>::empty());
        return true;
    }
    let d = digits.len() - z;
    if r.exp_value == EXP_CAP {
        return r.exp_neg;
    }
    let m: i128 = (d as i128) + (if r.exp_neg { -(r.exp_value as i128) } else { r.exp_value as i128 }) - (r.frac_len as i128);
    assert(m == d + p.exp);
    if r.neg {
        if m < -323 {
            return true;
        }
        if m > -323 {
            return false;
        }
        let t = chars_of(TINY_DIGITS);
        frac_order_in(digits, z, &t) <= 0
    } else {
        if m < 309 {
            return true;
        }
        if m > 309 {
            return false;
        }
        let h = chars_of(HUGE_DIGITS);
        frac_order_in(digits, z, &h) < 0
    }
}

/// Whether `n` reads as an `f64` that is finite and not below zero.
pub fn finite_nonneg_number(n: &Vec<char>) -> (b: bool)
    ensures
        b == finite_nonneg(n@),
{
    match read_number(n) {
        None => false,
        Some(r) => {
            let ghost p = number_parts(n@)->Some_0;
            parts_ok(&r, Ghost(p))
        },
    }
}

/// Whether `v` ends in `unit` after a non-empty number that reads as a
/// finite, non-negative `f64`.
fn dim_with_in(v: &Vec<char>, unit: &str) -> (b: bool)
    ensures
        b == dim_with(v@, unit@),
{
    let u = chars_of(unit);
    if v.len() <= u.len() {
        return false;
    }
    let k = v.len() - u.len();
    if !has_at(v, k, unit) {
        assert(v@.skip(k as int).take(u@.len() as int) =~= v@.skip(k as int));
        return false;
    }
    assert(v@.skip(k as int).take(u@.len() as int) =~= v@.skip(k as int));
    let mut num: Vec<char> = Vec::new();
    push_range(&mut num, v, 0, k);
    assert(num@ =~= v@.take(k as int));
    finite_nonneg_number(&num)
}

/// A safe-to-interpolate dimension: a number followed by a known unit.
pub fn is_valid_dimension(v: &str) -> (b: bool)
    ensures
        b == valid_dimension(v@),
{
    proof {
        reveal_strlit("%");
        reveal_strlit("cm");
        reveal_strlit("mm");
        reveal_strlit("in");
        reveal_strlit("pt");
        reveal_strlit("em");
        assert("%"@ =~= seq!['%']);
        assert("cm"@ =~= seq!['c', 'm']);
        assert("mm"@ =~= seq!['m', 'm']);
        assert("in"@ =~= seq!['i', 'n']);
        assert("pt"@ =~= seq!['p', 't']);
        assert("em"@ =~= seq!['e', 'm']);
    }
    let c = chars_of(v);
    dim_with_in(&c, "%") || dim_with_in(&c, "cm") || dim_with_in(&c, "mm") || dim_with_in(&c, "in")
        || dim_with_in(&c, "pt") || dim_with_in(&c, "em")
}

// ---------------------------------------------------------------- width attributes

/// The first index at or after `i` that does not hold whitespace.
pub open spec fn skip_ws(s: Seq<char>, i: int) -> int
    decreases s.len() - i,
{
    if i < 0 || i >= s.len() || !is_ws(s[i]) { i } else { skip_ws(s, i + 1) }
}

/// The first index at or after `i` that holds whitespace.
pub open spec fn word_end(s: Seq<char>, i: int) -> int
    decreases s.len() - i,
{
    if i < 0 || i >= s.len() || is_ws(s[i]) { i } else { word_end(s, i + 1) }
}

/// `s` without leading `"`s.
pub open spec fn strip_quotes_start(s: Seq<char>) -> Seq<char>
    decreases s.len(),
{
    if s.len() > 0 && s[0] == '"' { strip_quotes_start(s.drop_first()) } else { s }
}

/// `s` without trailing `"`s.
pub open spec fn strip_quotes_end(s: Seq<char>) -> Seq<char>
    decreases s.len(),
{
    if s.len() > 0 && s.last() == '"' { strip_quotes_end(s.drop_last()) } else { s }
}

/// `s` without leading or trailing `"`s (`str::trim_matches('"')`).
pub open spec fn trim_quotes(s: Seq<char>) -> Seq<char> {
    strip_quotes_start(strip_quotes_end(s))
}

/// The value of one attribute word `width=…`, where it is a valid dimension.
pub open spec fn width_word(w: Seq<char>) -> Option<Seq<char>> {
    if starts_with(w, seq!['w', 'i', 'd', 't', 'h', '=']) && valid_dimension(trim_quotes(w.skip(6))) {
        Some(trim_quotes(w.skip(6)))
    } else {
        None
    }
}

/// The first valid `width=…` among the whitespace-separated words of `s`
/// from position `i` on.
pub open spec fn width_from(s: Seq<char>, i: int) -> Option<Seq<char>>
    decreases s.len() - i,
{
    let b = skip_ws(s, i);
    if i < 0 || b < i || b >= s.len() {
        None
    } else {
        let e = word_end(s, b);
        match width_word(s.subrange(b, e)) {
            Some(v) => Some(v),
            None => if b < e <= s.len() { width_from(s, e) } else { None },
        }
    }
}

/// The width an attribute group `{…}` asks for.
pub open spec fn width_attr(attrs: Seq<char>) -> Option<Seq<char>> {
    width_from(attrs, 0)
}

proof fn lemma_skip_ws(s: Seq<char>, i: int)
    requires
        0 <= i <= s.len(),
    ensures
        i <= skip_ws(s, i) <= s.len(),
        skip_ws(s, i) < s.len() ==> !is_ws(s[skip_ws(s, i)]),
    decreases s.len() - i,
{
    if i < s.len() && is_ws(s[i]) {
        lemma_skip_ws(s, i + 1);
    }
}

proof fn lemma_word_end(s: Seq<char>, i: int)
    requires
        0 <= i <= s.len(),
    ensures
        i <= word_end(s, i) <= s.len(),
        i < s.len() && !is_ws(s[i]) ==> i < word_end(s, i),
    decreases s.len() - i,
{
    if i < s.len() && !is_ws(s[i]) {
        lemma_word_end(s, i + 1);
    }
}

fn trim_quotes_range(v: &Vec<char>, from: usize, to: usize) -> (r: String)
    requires
        from <= to <= v@.len(),
    ensures
        r@ == trim_quotes(v@.subrange(from as int, to as int)),
{
    let mut e = to;
    while e > from && v[e - 1] == '"'
        invariant
            from <= e <= to <= v@.len(),
            strip_quotes_end(v@.subrange(from as int, to as int)) == strip_quotes_end(v@.subrange(from as int, e as int)),
        decreases e,
    {
        assert(v@.subrange(from as int, e as int).drop_last() =~= v@.subrange(from as int, e - 1));
        e = e - 1;
    }
    let mut b = from;
    while b < e && v[b] == '"'
        invariant
            from <= b <= e <= to <= v@.len(),
            strip_quotes_end(v@.subrange(from as int, to as int)) == v@.subrange(from as int, e as int),
            strip_quotes_start(v@.subrange(from as int, e as int)) == strip_quotes_start(v@.subrange(b as int, e as int)),
        decreases e - b,
    {
        assert(v@.subrange(b as int, e as int).drop_first() =~= v@.subrange(b + 1, e as int));
        b = b + 1;
    }
    string_of_range(v, b, e)
}

fn width_word_in(v: &Vec<char>, b: usize, e: usize) -> (r: Option<String>)
    requires
        b <= e <= v@.len(),
    ensures
        match r {
            Some(x) => width_word(v@.subrange(b as int, e as int)) == Some(x@),
            None => width_word(v@.subrange(b as int, e as int)) is None,
        },
{
    let ghost w = v@.subrange(b as int, e as int);
    if e - b < 6 || v[b] != 'w' || v[b + 1] != 'i' || v[b + 2] != 'd' || v[b + 3] != 't' || v[b + 4] != 'h' || v[b + 5] != '=' {
        assert(!starts_with(w, seq!['w', 'i', 'd', 't', 'h', '='])) by {
            if starts_with(w, seq!['w', 'i', 'd', 't', 'h', '=']) {
                assert(w.take(6)[0] == w[0]);
                assert(w.take(6)[1] == w[1]);
                assert(w.take(6)[2] == w[2]);
                assert(w.take(6)[3] == w[3]);
                assert(w.take(6)[4] == w[4]);
                assert(w.take(6)[5] == w[5]);
            }
        }
        return None;
    }
    assert(w.take(6) =~= seq!['w', 'i', 'd', 't', 'h', '=']);
    assert(w.skip(6) =~= v@.subrange(b + 6, e as int));
    let val = trim_quotes_range(v, b + 6, e);
    if is_valid_dimension(val.as_str()) {
        Some(val)
    } else {
        None
    }
}

/// The width asked for by an image attribute group such as `width=50%`: the
/// first `width=` word whose value, quotes trimmed, is a valid dimension.
pub fn parse_width_attr(attrs: &str) -> (r: Option<String>)
    ensures
        match r {
            Some(x) => width_attr(attrs@) == Some(x@),
            None => width_attr(attrs@) is None,
        },
{
    let v = chars_of(attrs);
    let mut i: usize = 0;
    while i < v.len()
        invariant
            i <= v@.len(),
            v@ == attrs@,
            width_attr(v@) == width_from(v@, i as int),
        decreases v.len() - i,
    {
        proof { lemma_skip_ws(v@, i as int); }
        let mut b = i;
        while b < v.len() && char_is_ws(v[b])
            invariant
                i <= b <= v@.len(),
                skip_ws(v@, i as int) == skip_ws(v@, b as int),
            decreases v.len() - b,
        {
            b = b + 1;
        }
        if b >= v.len() {
            return None;
        }
        proof { lemma_word_end(v@, b as int); }
        let mut e = b;
        while e < v.len() && !char_is_ws(v[e])
            invariant
                b <= e <= v@.len(),
                word_end(v@, b as int) == word_end(v@, e as int),
            decreases v.len() - e,
        {
            e = e + 1;
        }
        match width_word_in(&v, b, e) {
            Some(w) => {
                return Some(w);
            },
            None => {},
        }
        i = e;
    }
    None
}

} // verus!
