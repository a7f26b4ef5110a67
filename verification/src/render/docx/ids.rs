//! Renumbering paragraph ids: `docx-rs` takes them from a process-wide
//! counter, which would make output depend on earlier renders.

use vstd::prelude::*;

verus! {

/// `w14:paraId="`, the attribute whose 8-hex-digit value is renumbered.
pub open spec fn needle() -> Seq<u8> {
    seq![119u8, 49u8, 52u8, 58u8, 112u8, 97u8, 114u8, 97u8, 73u8, 100u8, 61u8, 34u8]
}

pub open spec fn hex_digit(d: nat) -> u8 {
    if d < 10 { (48 + d) as u8 } else { (87 + d) as u8 }
}

/// The last `k` lowercase hex digits of `n`, most significant first.
pub open spec fn hex_rev(n: nat, k: nat) -> Seq<u8>
    decreases k,
{
    if k == 0 { seq![] } else { hex_rev(n / 16, (k - 1) as nat).push(hex_digit(n % 16)) }
}

/// `n` as 8 lowercase hex digits (`format!("{:08x}", n)` for `n < 2^32`).
pub open spec fn hex8(n: nat) -> Seq<u8> {
    hex_rev(n, 8)
}

pub open spec fn id_at(xml: Seq<u8>, i: int) -> bool {
    0 <= i && i + 20 <= xml.len() && xml.subrange(i, i + 12) == needle()
}

/// How many ids the scan from `i` renumbers.
pub open spec fn id_count(xml: Seq<u8>, i: int) -> nat
    decreases xml.len() - i,
{
    if i < 0 || i + 20 > xml.len() {
        0
    } else if id_at(xml, i) {
        1 + id_count(xml, i + 20)
    } else {
        id_count(xml, i + 1)
    }
}

/// The text from `i` on once every id met scanning from `i` is replaced by
/// the next number, starting at `next`.
pub open spec fn renumbered(xml: Seq<u8>, i: int, next: nat) -> Seq<u8>
    decreases xml.len() - i,
{
    if i < 0 || i + 20 > xml.len() {
        if 0 <= i <= xml.len() { xml.skip(i) } else { seq![] }
    } else if id_at(xml, i) {
        xml.subrange(i, i + 12) + hex8(next) + renumbered(xml, i + 20, next + 1)
    } else {
        seq![xml[i]] + renumbered(xml, i + 1, next)
    }
}

proof fn lemma_hex_len(n: nat, k: nat)
    ensures
        hex_rev(n, k).len() == k,
    decreases k,
{
    if k > 0 {
        lemma_hex_len(n / 16, (k - 1) as nat);
    }
}

fn hex_digits(n: u64, k: u64) -> (r: Vec<u8>)
    ensures
        r@ == hex_rev(n as nat, k as nat),
    decreases k,
{
    if k == 0 {
        return Vec::new();
    }
    let mut v = hex_digits(n / 16, k - 1);
    let d = n % 16;
    let c: u8 = if d < 10 { 48 + d as u8 } else { 87 + d as u8 };
    v.push(c);
    v
}

/// How many ids `normalize_para_ids` renumbers in `xml`.
pub fn para_id_count(xml: &Vec<u8>) -> (n: u64)
    ensures
        n as nat == id_count(xml@, 0) || (n == u64::MAX && id_count(xml@, 0) >= u64::MAX),
{
    let mut i: usize = 0;
    let mut n: u64 = 0;
    while i <= xml.len() && xml.len() - i >= 20
        invariant
            i <= xml@.len() + 1,
            n == u64::MAX ==> id_count(xml@, 0) >= u64::MAX,
            n < u64::MAX ==> id_count(xml@, 0) == n + id_count(xml@, i as int),
        decreases xml.len() + 1 - i,
    {
        if is_needle_at(xml, i) {
            if n < u64::MAX {
                n = n + 1;
            } else {
                return n;
            }
            i = i + 20;
        } else {
            i = i + 1;
        }
    }
    n
}

fn is_needle_at(xml: &Vec<u8>, i: usize) -> (b: bool)
    requires
        i + 20 <= xml@.len(),
    ensures
        b == id_at(xml@, i as int),
{
    let pat: [u8; 12] = [119, 49, 52, 58, 112, 97, 114, 97, 73, 100, 61, 34];
    let n = xml.len();
    let mut k: usize = 0;
    while k < 12
        invariant
            k <= 12,
            n == xml@.len(),
            i + 20 <= xml@.len(),
            pat@ == needle(),
            forall|j: int| 0 <= j < k ==> xml@[i + j] == needle()[j],
        decreases 12 - k,
    {
        if xml[i + k] != pat[k] {
            assert(xml@.subrange(i as int, i + 12)[k as int] != needle()[k as int]);
            return false;
        }
        k = k + 1;
    }
    assert(xml@.subrange(i as int, i + 12) =~= needle());
    true
}

/// Rewrite every `w14:paraId="xxxxxxxx"` with a sequential value, starting
/// at `next_id`, so output does not depend on earlier renders.
pub fn normalize_para_ids(xml: &mut Vec<u8>, next_id: &mut u64)
    requires
        *old(next_id) + id_count(old(xml)@, 0) <= 0x1_0000_0000,
    ensures
        final(xml)@ == renumbered(old(xml)@, 0, *old(next_id) as nat),
        *final(next_id) == *old(next_id) + id_count(old(xml)@, 0),
{
    let ghost orig = xml@;
    let ghost n0 = *next_id as nat;
    let mut i: usize = 0;
    assert(xml@.take(0) =~= Seq::<u8>::empty());
    assert(xml@.skip(0) =~= orig);
    while i <= xml.len() && xml.len() - i >= 20
        invariant
            xml@.len() == orig.len(),
            i <= orig.len(),
            xml@.skip(i as int) == orig.skip(i as int),
            xml@.take(i as int) + renumbered(orig, i as int, *next_id as nat) == renumbered(orig, 0, n0),
            *next_id + id_count(orig, i as int) == n0 + id_count(orig, 0),
            n0 + id_count(orig, 0) <= 0x1_0000_0000,
        decreases xml.len() + 1 - i,
    {
        assert(xml@.subrange(i as int, i + 20) == orig.subrange(i as int, i + 20)) by {
            assert(xml@.subrange(i as int, i + 20) =~= xml@.skip(i as int).take(20));
            assert(orig.subrange(i as int, i + 20) =~= orig.skip(i as int).take(20));
        }
        assert(xml@.subrange(i as int, i + 12) =~= xml@.subrange(i as int, i + 20).take(12));
        assert(orig.subrange(i as int, i + 12) =~= orig.subrange(i as int, i + 20).take(12));
        if is_needle_at(xml, i) {
            let ghost before = xml@;
            let h = hex_digits(*next_id, 8);
            proof { lemma_hex_len(*next_id as nat, 8); }
            let len = xml.len();
            let mut k: usize = 0;
            while k < 8
                invariant
                    k <= 8,
                    len == xml@.len(),
                    before.skip(i as int) == orig.skip(i as int),
                    i + 20 <= before.len(),
                    xml@.len() == before.len(),
                    h@ == hex8(*next_id as nat),
                    h@.len() == 8,
                    forall|j: int| 0 <= j < i + 12 ==> xml@[j] == before[j],
                    forall|j: int| i + 20 <= j < before.len() ==> xml@[j] == before[j],
                    forall|j: int| 0 <= j < k ==> xml@[i + 12 + j] == h@[j],
                decreases 8 - k,
            {
                xml.set(i + 12 + k, h[k]);
                k = k + 1;
            }
            assert(xml@.take(i + 20) =~= before.take(i as int) + orig.subrange(i as int, i + 12) + hex8(*next_id as nat));
            assert forall|j: int| 0 <= j < xml@.skip(i + 20).len() implies #[trigger] xml@.skip(i + 20)[j] == orig.skip(i + 20)[j] by {
                assert(xml@[i + 20 + j] == before[i + 20 + j]);
                assert(before.skip(i as int)[20 + j] == orig.skip(i as int)[20 + j]);
            }
            assert(xml@.skip(i + 20) =~= orig.skip(i + 20));
            *next_id = *next_id + 1;
            i = i + 20;
        } else {
            assert(xml@.skip(i as int)[0] == xml@[i as int]);
            assert(orig.skip(i as int)[0] == orig[i as int]);
            assert(xml@.skip(i + 1) =~= xml@.skip(i as int).drop_first());
            assert(orig.skip(i + 1) =~= orig.skip(i as int).drop_first());
            assert(xml@.take(i + 1) =~= xml@.take(i as int) + seq![orig[i as int]]);
            i = i + 1;
        }
    }
    assert(renumbered(orig, i as int, *next_id as nat) == orig.skip(i as int));
    assert(xml@.take(i as int) + xml@.skip(i as int) =~= xml@);
}

/// The text from `i` on with the value of every id the renumbering meets
/// blanked out (eight zero bytes).
pub open spec fn masked(xml: Seq<u8>, i: int) -> Seq<u8>
    decreases xml.len() - i,
{
    if i < 0 || i + 20 > xml.len() {
        if 0 <= i <= xml.len() { xml.skip(i) } else { seq![] }
    } else if id_at(xml, i) {
        xml.subrange(i, i + 12) + Seq::new(8, |k: int| 0u8) + masked(xml, i + 20)
    } else {
        seq![xml[i]] + masked(xml, i + 1)
    }
}

proof fn lemma_masked_len(xml: Seq<u8>, i: int)
    requires
        0 <= i <= xml.len(),
    ensures
        masked(xml, i).len() == xml.len() - i,
    decreases xml.len() - i,
{
    if i + 20 <= xml.len() {
        if id_at(xml, i) {
            lemma_masked_len(xml, i + 20);
        } else {
            lemma_masked_len(xml, i + 1);
        }
    }
}

/// Where the blanked text from `j` starts with `t`, a text without the
/// first byte of the id attribute, the text itself starts with `t`.
proof fn lemma_masked_prefix(xml: Seq<u8>, j: int, t: Seq<u8>)
    requires
        0 <= j <= xml.len(),
        masked(xml, j).len() >= t.len(),
        masked(xml, j).take(t.len() as int) == t,
        forall|k: int| 0 <= k < t.len() ==> t[k] != needle()[0],
    ensures
        j + t.len() <= xml.len(),
        xml.subrange(j, j + t.len()) == t,
    decreases t.len(),
{
    lemma_masked_len(xml, j);
    if t.len() > 0 {
        if j + 20 > xml.len() {
            assert(masked(xml, j) == xml.skip(j));
            assert forall|k: int| 0 <= k < t.len() implies xml.subrange(j, j + t.len())[k] == t[k] by {
                assert(masked(xml, j).take(t.len() as int)[k] == xml.skip(j)[k]);
            }
            assert(xml.subrange(j, j + t.len()) =~= t);
        } else if id_at(xml, j) {
            assert(masked(xml, j)[0] == xml.subrange(j, j + 12)[0]);
            assert(xml.subrange(j, j + 12)[0] == needle()[0]);
            assert(masked(xml, j).take(t.len() as int)[0] == t[0]);
        } else {
            let m = masked(xml, j);
            assert(m == seq![xml[j]] + masked(xml, j + 1));
            assert(m.take(t.len() as int)[0] == t[0]);
            assert(masked(xml, j + 1).take(t.len() - 1) =~= t.drop_first()) by {
                assert forall|k: int| 0 <= k < t.len() - 1 implies masked(xml, j + 1).take(t.len() - 1)[k] == t.drop_first()[k] by {
                    assert(m.take(t.len() as int)[k + 1] == t[k + 1]);
                    assert(m[k + 1] == masked(xml, j + 1)[k]);
                }
            }
            lemma_masked_prefix(xml, j + 1, t.drop_first());
            assert(xml.subrange(j, j + t.len()) =~= seq![xml[j]] + xml.subrange(j + 1, j + t.len()));
            assert(t =~= seq![t[0]] + t.drop_first());
        }
    } else {
        assert(xml.subrange(j, j) =~= t);
    }
}

proof fn lemma_renumber_masked(a: Seq<u8>, b: Seq<u8>, i: int, n: nat)
    requires
        a.len() == b.len(),
        0 <= i <= a.len(),
        masked(a, i) == masked(b, i),
    ensures
        renumbered(a, i, n) == renumbered(b, i, n),
    decreases a.len() - i,
{
    reveal_with_fuel(masked, 2);
    if i + 20 > a.len() {
    } else if id_at(a, i) && id_at(b, i) {
        lemma_masked_len(a, i + 20);
        lemma_masked_len(b, i + 20);
        let za = a.subrange(i, i + 12) + Seq::new(8, |k: int| 0u8);
        let zb = b.subrange(i, i + 12) + Seq::new(8, |k: int| 0u8);
        assert(za =~= zb);
        assert(masked(a, i + 20) =~= masked(a, i).skip(20));
        assert(masked(b, i + 20) =~= masked(b, i).skip(20));
        lemma_renumber_masked(a, b, i + 20, n + 1);
    } else if !id_at(a, i) && !id_at(b, i) {
        assert(masked(a, i)[0] == a[i]);
        assert(masked(b, i)[0] == b[i]);
        assert(masked(a, i + 1) =~= masked(a, i).skip(1));
        assert(masked(b, i + 1) =~= masked(b, i).skip(1));
        lemma_renumber_masked(a, b, i + 1, n);
    } else {
        let (x, y) = if id_at(a, i) { (a, b) } else { (b, a) };
        assert(id_at(x, i) && !id_at(y, i));
        lemma_masked_len(x, i);
        lemma_masked_len(y, i + 1);
        let t = needle().drop_first();
        assert(masked(y, i) == seq![y[i]] + masked(y, i + 1));
        assert(masked(x, i).take(12) =~= x.subrange(i, i + 12));
        assert(y[i] == needle()[0]) by {
            assert(masked(y, i)[0] == masked(x, i)[0]);
        }
        assert(masked(y, i + 1).take(11) =~= t) by {
            assert forall|k: int| 0 <= k < 11 implies masked(y, i + 1).take(11)[k] == t[k] by {
                assert(masked(y, i)[k + 1] == masked(x, i)[k + 1]);
                assert(masked(x, i)[k + 1] == x.subrange(i, i + 12)[k + 1]);
            }
        }
        lemma_masked_prefix(y, i + 1, t);
        assert(y.subrange(i, i + 12) =~= needle()) by {
            assert(y.subrange(i, i + 12) =~= seq![y[i]] + y.subrange(i + 1, i + 12));
        }
    }
}

/// The renumbered document does not depend on the ids it was given: two
/// texts that differ only in the values of the ids renumbering meets come
/// out the same. Output is thus independent of the counter `docx-rs` takes
/// ids from.
pub proof fn law_ids_erased(a: Seq<u8>, b: Seq<u8>, next: nat)
    requires
        masked(a, 0) == masked(b, 0),
    ensures
        renumbered(a, 0, next) == renumbered(b, 0, next),
{
    lemma_masked_len(a, 0);
    lemma_masked_len(b, 0);
    lemma_renumber_masked(a, b, 0, next);
}

} // verus!
