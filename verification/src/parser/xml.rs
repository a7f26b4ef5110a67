//! Reading the XML rendering of a CommonMark tree.
//!
//! The reader knows one dialect: every element is `<name attrs>` … `</name>`,
//! `<name attrs />`, or a literal element `<name attrs xml:space="preserve">`
//! whose escaped text runs up to the next `<`. Whitespace between tags is
//! layout; the `<?…?>` and `<!…>` prologue lines are skipped.

use vstd::prelude::*;
use crate::text::{chars_of, ends_with, has_at, push_char, starts_with, string_of_range};

verus! {

// ---------------------------------------------------------------- searching

/// The first index at or after `from` where `s` holds `c`, else `s.len()`.
pub open spec fn find_char(s: Seq<char>, c: char, from: int) -> int
    decreases s.len() - from,
{
    if from < 0 || from >= s.len() {
        s.len() as int
    } else if s[from] == c {
        from
    } else {
        find_char(s, c, from + 1)
    }
}

/// The first index at or after `from` where `pat` occurs in `s`, else `s.len()`.
pub open spec fn find_at(s: Seq<char>, pat: Seq<char>, from: int) -> int
    decreases s.len() - from,
{
    if from < 0 || from >= s.len() || from + pat.len() > s.len() {
        s.len() as int
    } else if s.subrange(from, from + pat.len()) == pat {
        from
    } else {
        find_at(s, pat, from + 1)
    }
}

pub proof fn lemma_find_char(s: Seq<char>, c: char, from: int)
    requires
        0 <= from,
    ensures
        from <= find_char(s, c, from) <= s.len() || (from > s.len() && find_char(s, c, from) == s.len()),
        find_char(s, c, from) < s.len() ==> s[find_char(s, c, from)] == c,
        forall|j: int| from <= j < find_char(s, c, from) ==> s[j] != c,
    decreases s.len() - from,
{
    if from < s.len() && s[from] != c {
        lemma_find_char(s, c, from + 1);
    }
}

pub proof fn lemma_find_at(s: Seq<char>, pat: Seq<char>, from: int)
    requires
        0 <= from,
    ensures
        find_at(s, pat, from) == s.len() || from <= find_at(s, pat, from),
        find_at(s, pat, from) <= s.len(),
        find_at(s, pat, from) < s.len() ==> find_at(s, pat, from) + pat.len() <= s.len()
            && s.subrange(find_at(s, pat, from), find_at(s, pat, from) + pat.len()) == pat,
    decreases s.len() - from,
{
    if from < s.len() && from + pat.len() <= s.len() && s.subrange(from, from + pat.len()) != pat {
        lemma_find_at(s, pat, from + 1);
    }
}

/// `find_char` on a vector of characters.
pub fn find_char_in(v: &Vec<char>, c: char, from: usize) -> (r: usize)
    requires
        from <= v@.len(),
    ensures
        r == find_char(v@, c, from as int),
{
    let mut i = from;
    while i < v.len()
        invariant
            from <= i <= v@.len(),
            find_char(v@, c, from as int) == find_char(v@, c, i as int),
        decreases v.len() - i,
    {
        if v[i] == c {
            return i;
        }
        i = i + 1;
    }
    i
}

/// `find_at` on a vector of characters, for the pattern `lit`.
pub fn find_lit_in(v: &Vec<char>, lit: &str, from: usize) -> (r: usize)
    requires
        from <= v@.len(),
    ensures
        r == find_at(v@, lit@, from as int),
{
    let mut i = from;
    while i < v.len()
        invariant
            from <= i <= v@.len(),
            find_at(v@, lit@, from as int) == find_at(v@, lit@, i as int),
        decreases v.len() - i,
    {
        let hit = has_at(v, i, lit);
        if hit {
            assert(v@.skip(i as int).take(lit@.len() as int) =~= v@.subrange(i as int, i + lit@.len()));
            return i;
        }
        proof {
            if i + lit@.len() <= v@.len() {
                assert(v@.skip(i as int).take(lit@.len() as int) =~= v@.subrange(i as int, i + lit@.len()));
            }
        }
        i = i + 1;
    }
    i
}

// ---------------------------------------------------------------- tokens

/// A token of the XML text: an opening tag (its text between `<` and `>`),
/// a childless element (tag text and literal content), or a closing tag.
pub enum XTok {
    Open(String),
    Leaf(String, String),
    Close,
}

pub enum XTokV {
    Open(Seq<char>),
    Leaf(Seq<char>, Seq<char>),
    Close,
}

impl View for XTok {
    type V = XTokV;

    open spec fn view(&self) -> XTokV {
        match self {
            XTok::Open(t) => XTokV::Open(t@),
            XTok::Leaf(t, x) => XTokV::Leaf(t@, x@),
            XTok::Close => XTokV::Close,
        }
    }
}

/// What one reading step at a position finds.
pub enum Step {
    Done,
    Fail,
    Skip(usize),
    Emit(XTok, usize),
}

pub enum StepV {
    Done,
    Fail,
    Skip(int),
    Emit(XTokV, int),
}

impl View for Step {
    type V = StepV;

    open spec fn view(&self) -> StepV {
        match self {
            Step::Done => StepV::Done,
            Step::Fail => StepV::Fail,
            Step::Skip(n) => StepV::Skip(*n as int),
            Step::Emit(t, n) => StepV::Emit(t@, *n as int),
        }
    }
}

/// Layout between tags.
pub open spec fn is_layout(c: char) -> bool {
    c == ' ' || c == '\n' || c == '\r' || c == '\t'
}

/// Where the tag opened at `i` ends (its `>`). A code block's tag carries its
/// info string unescaped, so it ends at the literal marker instead.
pub open spec fn tag_end(s: Seq<char>, i: int) -> int {
    let p = find_at(s, " xml:space=\"preserve\">"@, i);
    if starts_with(s.skip(i), "<code_block"@) && p < s.len() {
        p + 21
    } else {
        find_char(s, '>', i)
    }
}

/// One step of reading at position `i`.
pub open spec fn step(s: Seq<char>, i: int) -> StepV {
    if i >= s.len() {
        StepV::Done
    } else if is_layout(s[i]) {
        StepV::Skip(i + 1)
    } else if s[i] != '<' {
        StepV::Fail
    } else {
        let j = tag_end(s, i);
        if j >= s.len() {
            StepV::Fail
        } else {
            let inner = s.subrange(i + 1, j);
            if inner.len() > 0 && (inner[0] == '?' || inner[0] == '!') {
                StepV::Skip(j + 1)
            } else if inner.len() > 0 && inner[0] == '/' {
                StepV::Emit(XTokV::Close, j + 1)
            } else if inner.len() > 0 && inner.last() == '/' {
                StepV::Emit(XTokV::Leaf(inner.drop_last(), seq![]), j + 1)
            } else if ends_with(inner, " xml:space=\"preserve\""@) {
                let k = find_char(s, '<', j + 1);
                let m = find_char(s, '>', k);
                if m >= s.len() {
                    StepV::Fail
                } else {
                    StepV::Emit(XTokV::Leaf(inner, s.subrange(j + 1, k)), m + 1)
                }
            } else {
                StepV::Emit(XTokV::Open(inner), j + 1)
            }
        }
    }
}

/// The tokens of `s` from position `i` on, after those in `acc`.
pub open spec fn scan(s: Seq<char>, i: int, acc: Seq<XTokV>) -> Option<Seq<XTokV>>
    decreases s.len() - i,
{
    match step(s, i) {
        StepV::Done => Some(acc),
        StepV::Fail => None,
        StepV::Skip(n) => if i < n <= s.len() { scan(s, n, acc) } else { None },
        StepV::Emit(t, n) => if i < n <= s.len() { scan(s, n, acc.push(t)) } else { None },
    }
}

proof fn lemma_step_advances(s: Seq<char>, i: int)
    requires
        0 <= i,
    ensures
        step(s, i) matches StepV::Skip(n) ==> i < n <= s.len(),
        step(s, i) matches StepV::Emit(_, n) ==> i < n <= s.len(),
{
    if i < s.len() && s[i] == '<' {
        lemma_find_at(s, " xml:space=\"preserve\">"@, i);
        lemma_find_char(s, '>', i);
        let j = tag_end(s, i);
        if j < s.len() {
            lemma_find_char(s, '<', j + 1);
            let k = find_char(s, '<', j + 1);
            lemma_find_char(s, '>', k);
        }
    }
}

fn step_at(v: &Vec<char>, i: usize) -> (r: Step)
    requires
        i <= v@.len(),
    ensures
        r@ == step(v@, i as int),
{
    if i >= v.len() {
        return Step::Done;
    }
    let c = v[i];
    if c == ' ' || c == '\n' || c == '\r' || c == '\t' {
        return Step::Skip(i + 1);
    }
    if c != '<' {
        return Step::Fail;
    }
    proof {
        reveal_strlit(" xml:space=\"preserve\">");
        reveal_strlit(" xml:space=\"preserve\"");
        lemma_find_at(v@, " xml:space=\"preserve\">"@, i as int);
        lemma_find_char(v@, '>', i as int);
    }
    let p = find_lit_in(v, " xml:space=\"preserve\">", i);
    let code = has_at(v, i, "<code_block");
    let j = if code && p < v.len() { p + 21 } else { find_char_in(v, '>', i) };
    if j >= v.len() {
        return Step::Fail;
    }
    let ghost inner = v@.subrange(i + 1, j as int);
    if j > i + 1 && (v[i + 1] == '?' || v[i + 1] == '!') {
        return Step::Skip(j + 1);
    }
    if j > i + 1 && v[i + 1] == '/' {
        return Step::Emit(XTok::Close, j + 1);
    }
    if j > i + 1 && v[j - 1] == '/' {
        let tag = string_of_range(v, i + 1, j - 1);
        assert(tag@ =~= inner.drop_last());
        return Step::Emit(XTok::Leaf(tag, String::new()), j + 1);
    }
    assert(j >= i);
    let lit = j - i >= 22 && has_at(v, j - 21, " xml:space=\"preserve\"");
    assert(lit == ends_with(inner, " xml:space=\"preserve\""@)) by {
        if j - i >= 22 {
            assert(inner.skip(inner.len() - 21) =~= v@.skip(j - 21).take(21));
        }
    }
    let tag = string_of_range(v, i + 1, j);
    if lit {
        proof { lemma_find_char(v@, '<', j + 1); }
        let k = find_char_in(v, '<', j + 1);
        proof { lemma_find_char(v@, '>', k as int); }
        let m = find_char_in(v, '>', k);
        if m >= v.len() {
            return Step::Fail;
        }
        let text = string_of_range(v, j + 1, k);
        return Step::Emit(XTok::Leaf(tag, text), m + 1);
    }
    Step::Emit(XTok::Open(tag), j + 1)
}

/// The tokens of `v`, or `None` where the text is not in the dialect.
pub fn tokens(v: &Vec<char>) -> (r: Option<Vec<XTok>>)
    ensures
        match r {
            Some(t) => scan(v@, 0, seq![]) == Some(t@.map_values(|x: XTok| x@)),
            None => scan(v@, 0, seq![]) is None,
        },
{
    let mut out: Vec<XTok> = Vec::new();
    let mut i: usize = 0;
    assert(out@.map_values(|x: XTok| x@) =~= Seq::<XTokV>::empty());
    while i <= v.len()
        invariant
            i <= v@.len(),
            scan(v@, 0, seq![]) == scan(v@, i as int, out@.map_values(|x: XTok| x@)),
        decreases v.len() + 1 - i,
    {
        proof { lemma_step_advances(v@, i as int); }
        let st = step_at(v, i);
        match st {
            Step::Done => {
                return Some(out);
            },
            Step::Fail => {
                return None;
            },
            Step::Skip(n) => {
                i = n;
            },
            Step::Emit(t, n) => {
                let ghost before = out@.map_values(|x: XTok| x@);
                let ghost tv = t@;
                out.push(t);
                assert(out@.map_values(|x: XTok| x@) =~= before.push(tv));
                i = n;
            },
        }
    }
    None
}

// ---------------------------------------------------------------- tree

/// An element: its tag text (name and attributes), its literal text, and
/// its child elements.
pub struct XNode {
    pub tag: String,
    pub text: String,
    pub children: Vec<XNode>,
}

pub struct XNodeV {
    pub tag: Seq<char>,
    pub text: Seq<char>,
    pub children: Seq<XNodeV>,
}

pub open spec fn xnode_v(n: XNode) -> XNodeV
    decreases n,
{
    XNodeV { tag: n.tag@, text: n.text@, children: xnodes_v(n.children@) }
}

pub open spec fn xnodes_v(s: Seq<XNode>) -> Seq<XNodeV>
    decreases s,
{
    if s.len() == 0 { seq![] } else { xnodes_v(s.drop_last()).push(xnode_v(s.last())) }
}

impl View for XNode {
    type V = XNodeV;

    open spec fn view(&self) -> XNodeV {
        xnode_v(*self)
    }
}

pub proof fn lemma_xnodes_v(s: Seq<XNode>)
    ensures
        (#[trigger] xnodes_v(s)).len() == s.len(),
        forall|i: int| 0 <= i < s.len() ==> #[trigger] xnodes_v(s)[i] == xnode_v(s[i]),
    decreases s.len(),
{
    if s.len() > 0 {
        lemma_xnodes_v(s.drop_last());
    }
}

pub proof fn lemma_xnodes_v_step(v: Seq<XNode>, i: int)
    requires
        0 <= i < v.len(),
    ensures
        xnodes_v(v.take(i + 1)) == xnodes_v(v.take(i)).push(xnode_v(v[i])),
{
    assert(v.take(i + 1).drop_last() =~= v.take(i));
}

/// `stack` with `c` appended to the children of its top element.
pub open spec fn add_child(stack: Seq<XNodeV>, c: XNodeV) -> Seq<XNodeV> {
    stack.drop_last().push(XNodeV { children: stack.last().children.push(c), ..stack.last() })
}

/// The element stack after the tokens from `i` on: an opening tag starts an
/// element, a closing tag ends the top one, a childless element joins the top.
pub open spec fn build(toks: Seq<XTokV>, i: int, stack: Seq<XNodeV>) -> Option<Seq<XNodeV>>
    decreases toks.len() - i,
{
    if i < 0 || i >= toks.len() {
        Some(stack)
    } else {
        match toks[i] {
            XTokV::Open(tag) => build(toks, i + 1, stack.push(XNodeV { tag, text: seq![], children: seq![] })),
            XTokV::Leaf(tag, text) => if stack.len() == 0 {
                None
            } else {
                build(toks, i + 1, add_child(stack, XNodeV { tag, text, children: seq![] }))
            },
            XTokV::Close => if stack.len() < 2 {
                None
            } else {
                build(toks, i + 1, add_child(stack.drop_last(), stack.last()))
            },
        }
    }
}

pub open spec fn holder() -> XNodeV {
    XNodeV { tag: seq![], text: seq![], children: seq![] }
}

/// The root element of the XML text `s`, where it is in the dialect and
/// holds exactly one root element.
pub open spec fn xml_tree(s: Seq<char>) -> Option<XNodeV> {
    match scan(s, 0, seq![]) {
        None => None,
        Some(toks) => match build(toks, 0, seq![holder()]) {
            Some(st) => if st.len() == 1 && st[0].children.len() == 1 {
                Some(st[0].children[0])
            } else {
                None
            },
            None => None,
        },
    }
}

fn push_child(stack: &mut Vec<XNode>, c: XNode)
    requires
        old(stack)@.len() > 0,
    ensures
        xnodes_v(final(stack)@) == add_child(xnodes_v(old(stack)@), xnode_v(c)),
        final(stack)@.len() == old(stack)@.len(),
{
    let ghost cv = xnode_v(c);
    let mut top = stack.pop().unwrap();
    let ghost topv = xnode_v(top);
    top.children.push(c);
    assert(top.children@.drop_last() =~= old(stack)@.last().children@);
    assert(xnode_v(top) == XNodeV { children: topv.children.push(cv), ..topv });
    assert(stack@ =~= old(stack)@.drop_last());
    stack.push(top);
    assert(stack@.drop_last() =~= old(stack)@.drop_last());
}

/// The root element of the XML text `xml`.
pub fn read_xml(xml: &str) -> (r: Option<XNode>)
    ensures
        match r {
            Some(n) => xml_tree(xml@) == Some(n@),
            None => xml_tree(xml@) is None,
        },
{
    let v = chars_of(xml);
    let toks = match tokens(&v) {
        Some(t) => t,
        None => return None,
    };
    let ghost tv = toks@.map_values(|x: XTok| x@);
    let mut stack: Vec<XNode> = Vec::new();
    let h = XNode { tag: String::new(), text: String::new(), children: Vec::new() };
    assert(xnodes_v(h.children@) =~= Seq::<XNodeV>::empty());
    assert(xnode_v(h) == holder());
    stack.push(h);
    assert(stack@.drop_last() =~= Seq::<XNode>::empty());
    assert(xnodes_v(Seq::<XNode>::empty()) =~= Seq::<XNodeV>::empty());
    assert(xnodes_v(stack@) =~= seq![holder()]);
    let mut i: usize = 0;
    while i < toks.len()
        invariant
            i <= toks@.len(),
            tv == toks@.map_values(|x: XTok| x@),
            v@ == xml@,
            scan(v@, 0, seq![]) == Some(tv),
            build(tv, 0, seq![holder()]) == build(tv, i as int, xnodes_v(stack@)),
        decreases toks.len() - i,
    {
        assert(toks@[i as int]@ == tv[i as int]);
        match &toks[i] {
            XTok::Open(tag) => {
                let ghost before = stack@;
                let node = XNode { tag: tag.clone(), text: String::new(), children: Vec::new() };
                assert(xnodes_v(node.children@) =~= Seq::<XNodeV>::empty());
                let ghost nv = xnode_v(node);
                assert(nv == XNodeV { tag: tag@, text: seq![], children: seq![] });
                stack.push(node);
                assert(stack@.drop_last() =~= before);
                assert(xnodes_v(stack@) == xnodes_v(before).push(nv));
            },
            XTok::Leaf(tag, text) => {
                proof { lemma_xnodes_v(stack@); }
                if stack.len() == 0 {
                    assert(build(tv, i as int, xnodes_v(stack@)) is None);
                    assert(xml_tree(xml@) is None);
                    return None;
                }
                let node = XNode { tag: tag.clone(), text: text.clone(), children: Vec::new() };
                assert(xnodes_v(node.children@) =~= Seq::<XNodeV>::empty());
                assert(xnode_v(node) == XNodeV { tag: tag@, text: text@, children: seq![] });
                push_child(&mut stack, node);
            },
            XTok::Close => {
                proof { lemma_xnodes_v(stack@); }
                if stack.len() < 2 {
                    assert(build(tv, i as int, xnodes_v(stack@)) is None);
                    assert(xml_tree(xml@) is None);
                    return None;
                }
                let ghost before = stack@;
                let top = stack.pop().unwrap();
                assert(stack@ =~= before.drop_last());
                assert(xnodes_v(before).drop_last() =~= xnodes_v(stack@));
                assert(xnodes_v(before).last() == xnode_v(top));
                push_child(&mut stack, top);
            },
        }
        i = i + 1;
    }
    let ghost fin = xnodes_v(stack@);
    proof { lemma_xnodes_v(stack@); }
    if stack.len() != 1 {
        return None;
    }
    let mut holder_node = stack.pop().unwrap();
    proof { lemma_xnodes_v(holder_node.children@); }
    if holder_node.children.len() != 1 {
        return None;
    }
    holder_node.children.pop()
}

// ---------------------------------------------------------------- tag text and literals

/// The element name: the tag text up to its first space.
pub open spec fn name_of(tag: Seq<char>) -> Seq<char> {
    tag.take(find_char(tag, ' ', 0))
}

/// The raw value of the attribute introduced by `key` (such as ` level="`),
/// up to the next `"`.
pub open spec fn attr(tag: Seq<char>, key: Seq<char>) -> Option<Seq<char>> {
    let p = find_at(tag, key, 0);
    if p >= tag.len() {
        None
    } else {
        let st = p + key.len();
        let e = find_char(tag, '"', st);
        if e >= tag.len() {
            None
        } else {
            Some(tag.subrange(st, e))
        }
    }
}

/// The attribute's value, or nothing.
pub open spec fn attr_or_empty(tag: Seq<char>, key: Seq<char>) -> Seq<char> {
    match attr(tag, key) {
        Some(v) => v,
        None => seq![],
    }
}

/// Entity-escaped text read back: `&amp;`, `&lt;`, `&gt;` and `&quot;`
/// stand for their characters; anything else stands for itself.
pub open spec fn unescape(s: Seq<char>) -> Seq<char>
    decreases s.len(),
{
    if s.len() == 0 {
        seq![]
    } else if starts_with(s, seq!['&', 'a', 'm', 'p', ';']) {
        seq!['&'] + unescape(s.skip(5))
    } else if starts_with(s, seq!['&', 'l', 't', ';']) {
        seq!['<'] + unescape(s.skip(4))
    } else if starts_with(s, seq!['&', 'g', 't', ';']) {
        seq!['>'] + unescape(s.skip(4))
    } else if starts_with(s, seq!['&', 'q', 'u', 'o', 't', ';']) {
        seq!['"'] + unescape(s.skip(6))
    } else {
        seq![s[0]] + unescape(s.skip(1))
    }
}

/// The element name of a tag text.
pub fn tag_name(tag: &str) -> (r: String)
    ensures
        r@ == name_of(tag@),
{
    let v = chars_of(tag);
    let e = find_char_in(&v, ' ', 0);
    proof { lemma_find_char(v@, ' ', 0); }
    let r = string_of_range(&v, 0, e);
    assert(r@ =~= name_of(tag@));
    r
}

/// The raw value of the attribute introduced by `key`.
pub fn tag_attr(tag: &str, key: &str) -> (r: Option<String>)
    ensures
        match r {
            Some(x) => attr(tag@, key@) == Some(x@),
            None => attr(tag@, key@) is None,
        },
{
    let v = chars_of(tag);
    let k = chars_of(key);
    let p = find_lit_in(&v, key, 0);
    proof { lemma_find_at(v@, key@, 0); }
    if p >= v.len() {
        return None;
    }
    let st = p + k.len();
    proof { lemma_find_char(v@, '"', st as int); }
    let e = find_char_in(&v, '"', st);
    if e >= v.len() {
        return None;
    }
    Some(string_of_range(&v, st, e))
}

/// `tag_attr`, or an empty string.
pub fn tag_attr_or_empty(tag: &str, key: &str) -> (r: String)
    ensures
        r@ == attr_or_empty(tag@, key@),
{
    match tag_attr(tag, key) {
        Some(x) => x,
        None => String::new(),
    }
}

proof fn lemma_not_prefix(rest: Seq<char>, p: Seq<char>, k: int)
    requires
        0 <= k < p.len(),
        k < rest.len() ==> rest[k] != p[k],
    ensures
        !starts_with(rest, p),
{
    if p.len() <= rest.len() && rest.take(p.len() as int) == p {
        assert(rest.take(p.len() as int)[k] == rest[k]);
    }
}

proof fn lemma_prefix_chars(rest: Seq<char>, p: Seq<char>)
    requires
        starts_with(rest, p),
    ensures
        forall|j: int| 0 <= j < p.len() ==> rest[j] == p[j],
{
    assert forall|j: int| 0 <= j < p.len() implies rest[j] == p[j] by {
        assert(rest.take(p.len() as int)[j] == rest[j]);
    }
}

/// Entity-escaped text read back.
pub fn unescape_text(t: &str) -> (r: String)
    ensures
        r@ == unescape(t@),
{
    let v = chars_of(t);
    let mut out = String::new();
    let mut i: usize = 0;
    assert(v@.skip(0) =~= v@);
    while i < v.len()
        invariant
            i <= v@.len(),
            unescape(v@) == out@ + unescape(v@.skip(i as int)),
        decreases v.len() - i,
    {
        let ghost rest = v@.skip(i as int);
        let ghost o0 = out@;
        let n = v.len() - i;
        if n >= 5 && v[i] == '&' && v[i + 1] == 'a' && v[i + 2] == 'm' && v[i + 3] == 'p' && v[i + 4] == ';' {
            assert(rest.take(5) =~= seq!['&', 'a', 'm', 'p', ';']);
            assert(rest.skip(5) =~= v@.skip(i + 5));
            push_char(&mut out, '&');
            i = i + 5;
        } else if n >= 4 && v[i] == '&' && v[i + 1] == 'l' && v[i + 2] == 't' && v[i + 3] == ';' {
            assert(rest.take(4) =~= seq!['&', 'l', 't', ';']);
            proof { lemma_not_prefix(rest, seq!['&', 'a', 'm', 'p', ';'], 1); }
            assert(rest.skip(4) =~= v@.skip(i + 4));
            push_char(&mut out, '<');
            i = i + 4;
        } else if n >= 4 && v[i] == '&' && v[i + 1] == 'g' && v[i + 2] == 't' && v[i + 3] == ';' {
            assert(rest.take(4) =~= seq!['&', 'g', 't', ';']);
            proof {
                lemma_not_prefix(rest, seq!['&', 'a', 'm', 'p', ';'], 1);
                lemma_not_prefix(rest, seq!['&', 'l', 't', ';'], 1);
            }
            assert(rest.skip(4) =~= v@.skip(i + 4));
            push_char(&mut out, '>');
            i = i + 4;
        } else if n >= 6 && v[i] == '&' && v[i + 1] == 'q' && v[i + 2] == 'u' && v[i + 3] == 'o' && v[i + 4] == 't' && v[i + 5] == ';' {
            assert(rest.take(6) =~= seq!['&', 'q', 'u', 'o', 't', ';']);
            proof {
                lemma_not_prefix(rest, seq!['&', 'a', 'm', 'p', ';'], 1);
                lemma_not_prefix(rest, seq!['&', 'l', 't', ';'], 1);
                lemma_not_prefix(rest, seq!['&', 'g', 't', ';'], 1);
            }
            assert(rest.skip(6) =~= v@.skip(i + 6));
            push_char(&mut out, '"');
            i = i + 6;
        } else {
            proof {
                if starts_with(rest, seq!['&', 'a', 'm', 'p', ';']) {
                    lemma_prefix_chars(rest, seq!['&', 'a', 'm', 'p', ';']);
                }
                if starts_with(rest, seq!['&', 'l', 't', ';']) {
                    lemma_prefix_chars(rest, seq!['&', 'l', 't', ';']);
                }
                if starts_with(rest, seq!['&', 'g', 't', ';']) {
                    lemma_prefix_chars(rest, seq!['&', 'g', 't', ';']);
                }
                if starts_with(rest, seq!['&', 'q', 'u', 'o', 't', ';']) {
                    lemma_prefix_chars(rest, seq!['&', 'q', 'u', 'o', 't', ';']);
                }
            }
            assert(rest.skip(1) =~= v@.skip(i + 1));
            push_char(&mut out, v[i]);
            i = i + 1;
        }
    }
    assert(out@ + unescape(v@.skip(i as int)) =~= out@);
    out
}

} // verus!
